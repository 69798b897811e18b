use terrain_core::sampling::{Dimension, SamplerKind, Unsupported};

#[test]
fn planar_generators_answer_in_the_plane_only() {
    for kind in [SamplerKind::Perlin2D, SamplerKind::Simplex2D, SamplerKind::Fractal2D] {
        assert_eq!(kind.permit(Dimension::Two), Ok(()));
        assert_eq!(
            kind.permit(Dimension::Three),
            Err(Unsupported { kind, dimension: Dimension::Three })
        );
    }
}

#[test]
fn spatial_perlin_answers_in_space_only() {
    assert_eq!(SamplerKind::Perlin3D.permit(Dimension::Three), Ok(()));
    assert_eq!(
        SamplerKind::Perlin3D.permit(Dimension::Two),
        Err(Unsupported { kind: SamplerKind::Perlin3D, dimension: Dimension::Two })
    );
}

#[test]
fn refusals_tell_generators_and_dimensions_apart() {
    let a = SamplerKind::Perlin2D.permit(Dimension::Three).unwrap_err();
    let b = SamplerKind::Simplex2D.permit(Dimension::Three).unwrap_err();
    let c = SamplerKind::Perlin3D.permit(Dimension::Two).unwrap_err();
    assert_ne!(a, b);
    assert_ne!(a, c);
    assert_ne!(b, c);
}
