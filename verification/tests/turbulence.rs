use ironpaint::turbulence::{SvgTurbulence, SVG_B_LEN};

fn unit_gradient(turbulence: &SvgTurbulence, channel: usize, cell: usize) -> [f64; 2] {
    let (x, y) = turbulence.gradient[channel * SVG_B_LEN + cell];
    let x = f64::from(x) / 256.0;
    let y = f64::from(y) / 256.0;
    let length = (x * x + y * y).sqrt();
    [x / length, y / length]
}

#[test]
fn turbulence_uses_filter_effects_rejection_sampling() {
    let turbulence = SvgTurbulence::new(7).expect("every cell draws a gradient");
    assert_eq!(&turbulence.lattice[..8], &[0, 78, 89, 7, 57, 173, 142, 40]);
    let [x, y] = unit_gradient(&turbulence, 0, 0);
    assert!((x - 0.809_942_121_543_021_1).abs() < 1e-15);
    assert!((y + 0.586_509_812_151_842_8).abs() < 1e-15);
}

#[test]
fn svg_turbulence_uses_filter_effects_rejection_sampling() {
    let turbulence = SvgTurbulence::new(7).expect("every cell draws a gradient");
    assert_eq!(&turbulence.lattice[..8], &[0, 78, 89, 7, 57, 173, 142, 40]);
    let [x, y] = unit_gradient(&turbulence, 0, 0);
    assert!((x - 0.809_942_121_543_021_1).abs() < 1e-15);
    assert!((y + 0.586_509_812_151_842_8).abs() < 1e-15);
}

#[test]
fn lattice_is_a_permutation_repeated_past_the_end() {
    for seed in [0, 1, -5, 7, 2_147_483_647, i32::MIN + 1] {
        let turbulence = SvgTurbulence::new(seed).expect("every cell draws a gradient");
        assert_eq!(turbulence.lattice.len(), SVG_B_LEN);
        let mut seen = [false; 256];
        for cell in &turbulence.lattice[..256] {
            assert!(!seen[*cell], "seed {seed}");
            seen[*cell] = true;
        }
        for k in 256..SVG_B_LEN {
            assert_eq!(turbulence.lattice[k], turbulence.lattice[k % 256]);
        }
        assert_eq!(turbulence.gradient.len(), 4 * SVG_B_LEN);
        for channel in 0..4 {
            for k in 0..SVG_B_LEN {
                let (x, y) = turbulence.gradient[channel * SVG_B_LEN + k];
                assert!((x, y) != (0, 0));
                assert!(x * x + y * y <= 256 * 256);
                assert_eq!((x, y), turbulence.gradient[channel * SVG_B_LEN + k % 256]);
            }
        }
    }
}

#[test]
fn non_positive_and_oversized_seeds_are_folded_into_range() {
    let folded = SvgTurbulence::new(-6).unwrap();
    let direct = SvgTurbulence::new(7).unwrap();
    assert_eq!(folded.lattice, direct.lattice);
    assert_eq!(folded.gradient, direct.gradient);
    let top = SvgTurbulence::new(i32::MAX).unwrap();
    let clamped = SvgTurbulence::new(i32::MAX - 1).unwrap();
    assert_eq!(top.lattice, clamped.lattice);
}
