use sim::input_modeling::{discrete_uniform_variate, Index};

fn chi_square(variable: &mut Index, offset: usize, expected_counts: &[usize]) -> f64 {
    let mut class_counts = vec![0usize; expected_counts.len()];
    let mut rng = rand_pcg::Mcg128Xsl64::new(42);
    let sample_size: usize = expected_counts.iter().sum();
    for _ in 0..sample_size {
        let index = variable.random_variate(&mut rng).unwrap() - offset;
        class_counts[index] += 1;
    }
    class_counts.iter().zip(expected_counts.iter()).fold(0.0, |acc, (class_count, expected_count)| {
        let f_class_count = *class_count as f64;
        let f_expected_count = *expected_count as f64;
        acc + (f_class_count - f_expected_count).powi(2) / f_expected_count
    })
}

#[test]
fn weighted_index_samples_chi_square() {
    let mut variable = Index::WeightedIndex { weights: vec![1, 2, 3, 4] };
    // The expected bin counts scale linearly with the weights
    let expected_counts: [usize; 4] = [1000, 2000, 3000, 4000];
    let chi_square_actual = chi_square(&mut variable, 0, &expected_counts);
    // At a significance level of 0.01, and with n-1=3 degrees of freedom, the chi square critical
    // value for this scenario is 11.345
    let chi_square_critical = 11.345;
    assert![chi_square_actual < chi_square_critical];
}

#[test]
fn index_uniform_samples_chi_square() {
    let mut variable = Index::Uniform { min: 7, max: 11 };
    // Constant bin counts, due to uniformity of distribution
    let expected_counts: [usize; 4] = [2500; 4];
    let chi_square_actual = chi_square(&mut variable, 7, &expected_counts);
    // At a significance level of 0.01, and with n-1=4 degrees of freedom, the chi square critical
    // value for this scenario is 13.277
    let chi_square_critical = 13.277;
    assert![chi_square_actual < chi_square_critical];
}

#[test]
fn discrete_uniform_variates_stay_in_range() {
    let mut rng = rand_pcg::Mcg128Xsl64::new(42);
    let mut seen = [false; 3];
    for _ in 0..300 {
        let x = discrete_uniform_variate(5, 8, &mut rng);
        assert!((5..8).contains(&x));
        seen[(x - 5) as usize] = true;
    }
    assert!(seen.iter().all(|s| *s));
    assert_eq!(discrete_uniform_variate(9, 10, &mut rng), 9);
}
