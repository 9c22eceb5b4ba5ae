use allan_tools::tau::{tau_generator, TauAxis};
use allan_tools::utils::diff;
use allan_tools::{
    deviation, feasible_taus, three_cornered_hat, variance, Deviation, Error, Estimate, RealTime,
};
use rand::Rng;
use rand_distr::StandardNormal;

/// ticks per unit of the synthetic noise
const TICKS: f64 = 1.0e6;

fn random(size: usize) -> Vec<f64> {
    let mut ret: Vec<f64> = Vec::with_capacity(size);
    for _ in 0..size {
        ret.push(rand::thread_rng().sample(StandardNormal))
    }
    ret
}

fn white_noise(psd: f64, sample_rate: f64, size: usize) -> Vec<f64> {
    let psd = 10.0_f64.powf(psd / 20.0);
    let norm = (2.0_f64 / psd / sample_rate).powf(0.5_f64);
    random(size).iter().map(|x| x / norm).collect()
}

fn pink_noise(psd: f64, sample_rate: f64, size: usize) -> Vec<f64> {
    let mut ret: Vec<f64> = Vec::with_capacity(size);
    let white = white_noise(psd, sample_rate, size);
    let (mut b0, mut b1, mut b2, mut b3, mut b4, mut b5, mut b6) =
        (0.0_f64, 0.0_f64, 0.0_f64, 0.0_f64, 0.0_f64, 0.0_f64, 0.0_f64);
    for i in 0..size {
        b0 = 0.99886 * b0 + white[i] * 0.0555179;
        b1 = 0.99332 * b1 + white[i] * 0.0750759;
        b2 = 0.96900 * b2 + white[i] * 0.1538520;
        b3 = 0.86650 * b3 + white[i] * 0.3104856;
        b4 = 0.55000 * b4 + white[i] * 0.5329522;
        b5 = -0.7616 * b5 - white[i] * 0.0168980;
        let pink = b0 + b1 + b2 + b3 + b4 + b5 + b6 + white[i] * 0.5362;
        b6 = white[i] * 0.115926;
        ret.push(pink)
    }
    ret
}

fn ticks(noise: Vec<f64>) -> Vec<i64> {
    noise.iter().map(|x| (x * TICKS).round() as i64).collect()
}

fn zigzag() -> Vec<i64> {
    vec![1, 5, 2, 8, 3, 9, 4, 7, 6, 0]
}

fn sums(curve: &Vec<Estimate>) -> Vec<u128> {
    curve.iter().map(|e| e.sum).collect()
}

#[test]
fn test_deviation() {
    let n: usize = 10000;
    let noises: Vec<&str> = vec!["whitepm", "flickpm", "whitefm", "pinkfm"];
    let axes: Vec<TauAxis> = vec![TauAxis::Octave, TauAxis::Decade, TauAxis::All];
    let calcs: Vec<Deviation> = vec![Deviation::Allan, Deviation::Modified, Deviation::Time];
    // test against pure noise
    for noise in noises {
        let input: Vec<i64>;
        if noise.eq("white") {
            input = ticks(white_noise(-10.0, 1.0, n))
        } else {
            input = ticks(pink_noise(-10.0, 1.0, n))
        };
        let is_fract = noise.contains("fm");

        for ax in &axes {
            let taus = tau_generator(*ax, 1, 1000);
            for overlapping in vec![false, true] {
                for calc in &calcs {
                    let dev = deviation(&input, &taus, *calc, is_fract, overlapping).unwrap();
                    assert_eq!(dev.len(), taus.len());
                    for i in 0..dev.len() {
                        assert_eq!(dev[i].calc, *calc);
                        assert!(dev[i].root);
                        assert_eq!(dev[i].tau as i64, taus[i]);
                        assert!(dev[i].terms >= 1);
                        assert!(dev[i].sum > 0);
                    }
                }
            }
        }
    }
}

#[test]
fn test_three_cornered_hat() {
    let pm_pink = diff(ticks(pink_noise(-10.0, 1.0, 10000)), None).unwrap();
    let fm_white = ticks(white_noise(-10.0, 1.0, 10000));
    let fm_pink = ticks(pink_noise(-10.0, 1.0, 10000));
    let taus = tau_generator(TauAxis::Octave, 1, 10000);

    let ((sum_a, err_a), (sum_b, err_b), (sum_c, err_c)) = three_cornered_hat(
        &pm_pink,
        &fm_white,
        &fm_pink,
        &taus,
        false,
        true,
        Deviation::Allan,
    )
    .unwrap();

    let adev_ab = deviation(&pm_pink, &taus, Deviation::Allan, false, true).unwrap();
    let adev_bc = deviation(&fm_white, &taus, Deviation::Allan, false, true).unwrap();
    let adev_ca = deviation(&fm_pink, &taus, Deviation::Allan, false, true).unwrap();

    // taus up to 4096 are feasible on 9999 samples and on 10000
    assert_eq!(adev_ab.len(), 13);
    assert_eq!(adev_bc.len(), 13);
    assert_eq!(adev_ca.len(), 13);
    assert_eq!(sum_a.len(), 13);
    assert_eq!(sum_b.len(), 13);
    assert_eq!(sum_c.len(), 13);
    assert_eq!(sums(&err_a), sums(&adev_ab));
    assert_eq!(sums(&err_b), sums(&adev_bc));
    assert_eq!(sums(&err_c), sums(&adev_ca));
    for i in 0..13 {
        let (k_ab, k_bc, k_ca) =
            (err_a[i].terms as i128, err_b[i].terms as i128, err_c[i].terms as i128);
        assert_eq!(k_ab, 9999 - 2 * taus[i] as i128);
        assert_eq!(k_bc, 10000 - 2 * taus[i] as i128);
        let x = err_a[i].sum as i128 * k_bc * k_ca;
        let y = err_b[i].sum as i128 * k_ca * k_ab;
        let z = err_c[i].sum as i128 * k_ab * k_bc;
        assert_eq!(sum_a[i] as i128, (x - y + z).max(0));
        assert_eq!(sum_b[i] as i128, (y - z + x).max(0));
        assert_eq!(sum_c[i] as i128, (z - x + y).max(0));
    }
}

#[test]
fn deviation_follows_the_axis() {
    let data = zigzag();
    let taus: Vec<i64> = vec![1, 2, 3, 4];
    let dev = deviation(&data, &taus, Deviation::Allan, false, true).unwrap();
    assert_eq!(sums(&dev), vec![598, 39, 257, 170]);
    assert_eq!(dev.iter().map(|e| e.terms).collect::<Vec<usize>>(), vec![8, 6, 4, 2]);
    assert_eq!(dev.iter().map(|e| e.tau).collect::<Vec<usize>>(), vec![1, 2, 3, 4]);
    let dev = deviation(&data, &taus, Deviation::Allan, false, false).unwrap();
    assert_eq!(sums(&dev), vec![598, 1, 121, 1]);
    let dev = deviation(&data, &taus, Deviation::Modified, false, false).unwrap();
    assert_eq!(sums(&dev), vec![598, 37, 241, 144]);
    assert_eq!(dev.iter().map(|e| e.terms).collect::<Vec<usize>>(), vec![8, 5, 2, 1]);
    assert!(dev.iter().all(|e| e.calc == Deviation::Modified && e.root));
    let dev = deviation(&data, &taus, Deviation::Time, false, true).unwrap();
    assert_eq!(sums(&dev), vec![598, 37, 241, 144]);
    assert!(dev.iter().all(|e| e.calc == Deviation::Time && e.root));
}

#[test]
fn variance_marks_its_estimates() {
    let data = zigzag();
    let taus: Vec<i64> = vec![1, 2, 3, 4];
    for calc in [Deviation::Allan, Deviation::Modified, Deviation::Time] {
        for overlapping in [false, true] {
            let dev = deviation(&data, &taus, calc, false, overlapping).unwrap();
            let var = variance(&data, &taus, calc, false, overlapping).unwrap();
            assert_eq!(dev.len(), var.len());
            for i in 0..dev.len() {
                assert!(dev[i].root);
                assert!(!var[i].root);
                assert_eq!(var[i], Estimate { root: false, ..dev[i] });
            }
        }
    }
}

#[test]
fn deviation_stops_at_the_first_tau_too_large() {
    let data = zigzag();
    let dev = deviation(&data, &vec![1, 100], Deviation::Allan, false, true).unwrap();
    assert_eq!(sums(&dev), vec![598]);
    let dev = deviation(&data, &vec![2, 4, 5, 6], Deviation::Modified, false, true).unwrap();
    assert_eq!(sums(&dev), vec![37, 144]);
    let dev = deviation(&data, &vec![5, 6], Deviation::Time, false, true).unwrap();
    assert!(dev.is_empty());
    let dev = deviation(&vec![], &vec![1, 2], Deviation::Allan, false, true).unwrap();
    assert!(dev.is_empty());
    let dev = deviation(&data, &vec![], Deviation::Allan, false, true).unwrap();
    assert!(dev.is_empty());
}

#[test]
fn deviation_validates_the_axis_first() {
    let data = zigzag();
    for calc in [Deviation::Allan, Deviation::Modified, Deviation::Time] {
        assert_eq!(
            deviation(&data, &vec![1, 1, 2], calc, false, true),
            Err(Error::TauAxisEror(allan_tools::tau::Error::InvalidTauShape))
        );
        assert_eq!(
            deviation(&data, &vec![1, -2, 3], calc, false, true),
            Err(Error::TauAxisEror(allan_tools::tau::Error::NegativeTauValue))
        );
        assert_eq!(
            variance(&data, &vec![0, 1, 2], calc, true, true),
            Err(Error::TauAxisEror(allan_tools::tau::Error::NullTauValue))
        );
        // a fault beyond the feasible taus still fails the call
        assert_eq!(
            deviation(&data, &vec![1, 100, 100], calc, false, true),
            Err(Error::TauAxisEror(allan_tools::tau::Error::InvalidTauShape))
        );
    }
}

#[test]
fn fractional_input_is_integrated_first() {
    let taus: Vec<i64> = vec![1, 2, 3, 4];
    let data: Vec<i64> = vec![1, 2, 3, 4, 5, 6, 7];
    let dev = deviation(&data, &taus, Deviation::Allan, true, true).unwrap();
    assert_eq!(sums(&dev), vec![5, 48, 81]);
    // a constant frequency is a linear phase
    let data: Vec<i64> = vec![1, 1, 1, 1, 1, 1, 1, 1];
    for calc in [Deviation::Allan, Deviation::Modified, Deviation::Time] {
        let dev = deviation(&data, &taus, calc, true, true).unwrap();
        assert_eq!(sums(&dev), vec![0, 0, 0]);
        let dev = deviation(&data, &taus, calc, false, true).unwrap();
        assert_eq!(sums(&dev), vec![0, 0, 0]);
    }
}

#[test]
fn overflow_fails_the_call() {
    let taus: Vec<i64> = vec![1, 2];
    let data: Vec<i64> = vec![i64::MAX, 1, 0, 0, 0];
    assert_eq!(deviation(&data, &taus, Deviation::Allan, true, true), Err(Error::OverflowError));
    assert!(deviation(&data, &taus, Deviation::Allan, false, true).is_ok());
    let data: Vec<i64> = vec![i64::MAX, i64::MIN, i64::MAX, 0, 0];
    assert_eq!(deviation(&data, &taus, Deviation::Allan, false, true), Err(Error::OverflowError));
    assert_eq!(variance(&data, &taus, Deviation::Time, false, true), Err(Error::OverflowError));
    // the sum that does not fit belongs to a tau that is not feasible
    let data: Vec<i64> = vec![i64::MAX, i64::MIN];
    assert_eq!(deviation(&data, &taus, Deviation::Allan, false, true), Ok(vec![]));
}

#[test]
fn hat_of_three_short_series() {
    let ab = zigzag();
    let bc: Vec<i64> = vec![0, 1, 4, 9, 16, 25, 36, 49, 64, 81];
    let ca: Vec<i64> = vec![0, 3, 0, 3, 0, 3, 0, 3, 0, 3];
    let taus: Vec<i64> = vec![1, 2];
    let ((sum_a, var_ab), (sum_b, var_bc), (sum_c, var_ca)) =
        three_cornered_hat(&ab, &bc, &ca, &taus, false, true, Deviation::Allan).unwrap();
    assert_eq!(sums(&var_ab), vec![598, 39]);
    assert_eq!(sums(&var_bc), vec![32, 384]);
    assert_eq!(sums(&var_ca), vec![288, 0]);
    assert!(var_ab.iter().chain(&var_bc).chain(&var_ca).all(|e| !e.root));
    assert_eq!(sum_a, vec![54656, 0]);
    assert_eq!(sum_b, vec![21888, 15228]);
    assert_eq!(sum_c, vec![0, 12420]);
}

#[test]
fn hat_weighs_series_of_different_lengths() {
    let ab = zigzag();
    let bc: Vec<i64> = vec![0, 1, 4, 9, 16, 25, 36, 49, 64];
    let ca: Vec<i64> = vec![0, 3, 0, 3, 0, 3, 0, 3, 0, 3];
    let taus: Vec<i64> = vec![1];
    let ((sum_a, var_ab), (sum_b, var_bc), (sum_c, var_ca)) =
        three_cornered_hat(&ab, &bc, &ca, &taus, false, true, Deviation::Allan).unwrap();
    assert_eq!((var_ab[0].sum, var_ab[0].terms), (598, 8));
    assert_eq!((var_bc[0].sum, var_bc[0].terms), (28, 7));
    assert_eq!((var_ca[0].sum, var_ca[0].terms), (288, 8));
    // 598 * 56 - 28 * 64 + 288 * 56
    assert_eq!(sum_a, vec![47824]);
    // 28 * 64 - 288 * 56 + 598 * 56
    assert_eq!(sum_b, vec![19152]);
    // 288 * 56 - 598 * 56 + 28 * 64 < 0
    assert_eq!(sum_c, vec![0]);
}

#[test]
fn hat_passes_errors_on() {
    let data = zigzag();
    assert_eq!(
        three_cornered_hat(&data, &data, &data, &vec![2, 1], false, true, Deviation::Allan),
        Err(Error::TauAxisEror(allan_tools::tau::Error::InvalidTauShape))
    );
    let wild: Vec<i64> = vec![i64::MAX, i64::MIN, i64::MAX, 0, 0, 0, 0, 0, 0, 0];
    assert_eq!(
        three_cornered_hat(&data, &wild, &data, &vec![1], false, true, Deviation::Allan),
        Err(Error::OverflowError)
    );
    // the pairwise sums fit, the weighted ones do not
    let large: Vec<i64> = vec![0, 0, 1 << 60, 1 << 60, 0, 0, 1 << 60, 1 << 60, 0, 0];
    assert!(variance(&large, &vec![1], Deviation::Allan, false, true).is_ok());
    assert_eq!(
        three_cornered_hat(&large, &large, &large, &vec![1], false, true, Deviation::Allan),
        Err(Error::OverflowError)
    );
}

#[test]
fn test_realtime_core() {
    let mut rt = RealTime::new(1);
    let noise = ticks(white_noise(1.0, 1.0, 100));
    for i in 0..noise.len() {
        rt.push(noise[i]);
        println!("{:#?}", rt)
    }
    let (taus, devs) = rt.get();
    assert_eq!(*taus, vec![1, 2, 4, 8, 16, 32, 64]);
    assert!(devs.is_empty());
}

#[test]
fn realtime_ladder_doubles_when_the_buffer_allows() {
    let mut rt = RealTime::new(3);
    assert_eq!(*rt.get().0, vec![3]);
    for sample in 0..6 {
        rt.push(sample);
        assert_eq!(*rt.get().0, vec![3]);
    }
    rt.push(6);
    assert_eq!(*rt.get().0, vec![3, 6]);
    // a block of samples moves the ladder by one step at most
    rt.push_n(&vec![0; 100]);
    assert_eq!(*rt.get().0, vec![3, 6, 12]);
    rt.push(0);
    assert_eq!(*rt.get().0, vec![3, 6, 12, 24]);
    rt.push_n(&vec![]);
    assert_eq!(*rt.get().0, vec![3, 6, 12, 24, 48]);
}

#[test]
fn realtime_reset_empties_the_core() {
    let mut rt = RealTime::new(1);
    rt.push_n(&vec![5; 10]);
    rt.reset();
    assert!(rt.get().0.is_empty());
    assert!(rt.get().1.is_empty());
    // without a ladder nothing grows
    rt.push(1);
    rt.push_n(&vec![1, 2, 3]);
    assert!(rt.get().0.is_empty());
}

#[test]
fn realtime_ladder_stops_before_it_overflows() {
    let mut rt = RealTime::new(u64::MAX);
    rt.push_n(&vec![0; 10]);
    assert_eq!(rt.get().0.len(), 1);
    let mut rt = RealTime::new(0);
    rt.push(0);
    assert_eq!(*rt.get().0, vec![0, 0]);
}

#[test]
fn feasible_taus_counts_the_estimates() {
    let taus: Vec<i64> = vec![1, 2, 4, 8, 16];
    assert_eq!(feasible_taus(&taus, 0), 0);
    assert_eq!(feasible_taus(&taus, 2), 0);
    assert_eq!(feasible_taus(&taus, 3), 1);
    assert_eq!(feasible_taus(&taus, 8), 2);
    assert_eq!(feasible_taus(&taus, 9), 3);
    assert_eq!(feasible_taus(&taus, 33), 5);
    assert_eq!(feasible_taus(&vec![], 33), 0);
    for len in 0..40 {
        let data: Vec<i64> = vec![0; len];
        let dev = deviation(&data, &taus, Deviation::Allan, false, true).unwrap();
        assert_eq!(dev.len(), feasible_taus(&taus, len));
    }
    // it stops at the first tau that is not feasible
    assert_eq!(feasible_taus(&vec![9, 1, 2], 10), 0);
}
