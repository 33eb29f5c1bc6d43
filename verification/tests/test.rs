use glam::Vec2;
use proc_macro2::TokenStream;
use ramp_gen::ramp;

fn generated(invocation: &str) -> String {
    let tokens: TokenStream = invocation.parse().unwrap();
    match ramp(tokens) {
        Ok(expression) => expression.to_string(),
        Err(e) => panic!("{}", e.string),
    }
}

fn written(expression: &str) -> String {
    let tokens: TokenStream = expression.parse().unwrap();
    tokens.to_string()
}

// Each closure below is the expression that the generator gives for the
// invocation beside it, written out: the first assertion of each block
// holds the two together, the others evaluate it.
#[test]
fn test() {
    assert_eq!(
        generated("[0.0, 1.0], [2.0, 0.0], [4.0, 4.0]"),
        written(
            "if x >= 2.0 { (x - 2.0) / (4.0 - 2.0) * (4.0 - 0.0) + 0.0 } \
             else { (x - 0.0) / (2.0 - 0.0) * (0.0 - 1.0) + 1.0 }"
        )
    );
    let f = |x: f32| {
        if x >= 2.0 { (x - 2.0) / (4.0 - 2.0) * (4.0 - 0.0) + 0.0 }
        else { (x - 0.0) / (2.0 - 0.0) * (0.0 - 1.0) + 1.0 }
    };

    assert_eq!(f(-1.0), 1.5);
    assert_eq!(f(0.0), 1.0);
    assert_eq!(f(1.0), 0.5);
    assert_eq!(f(2.0), 0.0);
    assert_eq!(f(3.0), 2.0);
    assert_eq!(f(4.0), 4.0);
    assert_eq!(f(5.0), 6.0);

    assert_eq!(
        generated("clamp [0.0, 1.0], [2.0, 0.0], [4.0, 4.0]"),
        written(
            "if x.clamp(0.0, 4.0) >= 2.0 \
             { (x.clamp(0.0, 4.0) - 2.0) / (4.0 - 2.0) * (4.0 - 0.0) + 0.0 } \
             else { (x.clamp(0.0, 4.0) - 0.0) / (2.0 - 0.0) * (0.0 - 1.0) + 1.0 }"
        )
    );
    let f = |x: f32| {
        if x.clamp(0.0, 4.0) >= 2.0
        { (x.clamp(0.0, 4.0) - 2.0) / (4.0 - 2.0) * (4.0 - 0.0) + 0.0 }
        else { (x.clamp(0.0, 4.0) - 0.0) / (2.0 - 0.0) * (0.0 - 1.0) + 1.0 }
    };

    assert_eq!(f(-1.0), 1.0);
    assert_eq!(f(0.0), 1.0);
    assert_eq!(f(1.0), 0.5);
    assert_eq!(f(2.0), 0.0);
    assert_eq!(f(3.0), 2.0);
    assert_eq!(f(4.0), 4.0);
    assert_eq!(f(5.0), 4.0);

    assert_eq!(
        generated("steps [0.0, 1.0], [2.0, 0.0], [4.0, 4.0]"),
        written("if x >= 2.0 { if x >= 4.0 { 4.0 } else { 0.0 } } else { 1.0 }")
    );
    let f = |x: f32| if x >= 2.0 { if x >= 4.0 { 4.0 } else { 0.0 } } else { 1.0 };

    assert_eq!(f(-1.0), 1.0);
    assert_eq!(f(0.0), 1.0);
    assert_eq!(f(1.0), 1.0);
    assert_eq!(f(2.0), 0.0);
    assert_eq!(f(3.0), 0.0);
    assert_eq!(f(4.0), 4.0);
    assert_eq!(f(5.0), 4.0);

    assert_eq!(
        generated("ease [0.0, 1.0], [2.0, 0.0], [4.0, 4.0]"),
        written(
            "{
                let smoothstep = |l: f32, r: f32, x: f32| {
                    let t = ((x - l) / (r - l)).clamp(0.0, 1.0);
                    t * t * (3.0 - 2.0 * t)
                };
                if x >= 2.0 { (smoothstep(2.0, 4.0, x) * (4.0 - 0.0) + 0.0) }
                else { (smoothstep(0.0, 2.0, x) * (0.0 - 1.0) + 1.0) }
            }"
        )
    );
    #[allow(unused_parens)]
    let f = |x: f32| {
        {
            let smoothstep = |l: f32, r: f32, x: f32| {
                let t = ((x - l) / (r - l)).clamp(0.0, 1.0);
                t * t * (3.0 - 2.0 * t)
            };
            if x >= 2.0 { (smoothstep(2.0, 4.0, x) * (4.0 - 0.0) + 0.0) }
            else { (smoothstep(0.0, 2.0, x) * (0.0 - 1.0) + 1.0) }
        }
    };

    assert_eq!(f(0.0), 1.0);
    assert_eq!(f(1.0), 0.5);
    assert_eq!(f(2.0), 0.0);
    assert_eq!(f(3.0), 2.0);
    assert_eq!(f(4.0), 4.0);

    assert_eq!(
        generated("clamp ease [0.0, 1.0], [2.0, 0.0], [4.0, 4.0]"),
        generated("ease [0.0, 1.0], [2.0, 0.0], [4.0, 4.0]")
    );

    assert_eq!(f(-1.0), 1.0);
    assert_eq!(f(0.0), 1.0);
    assert_eq!(f(1.0), 0.5);
    assert_eq!(f(2.0), 0.0);
    assert_eq!(f(3.0), 2.0);
    assert_eq!(f(4.0), 4.0);
    assert_eq!(f(5.0), 4.0);

    assert_eq!(
        generated(
            "@t [0.0, Vec2::new(0.0, 0.0)], [2.0, Vec2::new(2.0, 1.0)], \
             [4.0, Vec2::new(1.0, 2.0)]"
        ),
        written(
            "if t >= 2.0 \
             { (t - 2.0) / (4.0 - 2.0) * (Vec2::new(1.0, 2.0) - Vec2::new(2.0, 1.0)) \
               + Vec2::new(2.0, 1.0) } \
             else \
             { (t - 0.0) / (2.0 - 0.0) * (Vec2::new(2.0, 1.0) - Vec2::new(0.0, 0.0)) \
               + Vec2::new(0.0, 0.0) }"
        )
    );
    let f = |t: f32| {
        if t >= 2.0
        { (t - 2.0) / (4.0 - 2.0) * (Vec2::new(1.0, 2.0) - Vec2::new(2.0, 1.0))
          + Vec2::new(2.0, 1.0) }
        else
        { (t - 0.0) / (2.0 - 0.0) * (Vec2::new(2.0, 1.0) - Vec2::new(0.0, 0.0))
          + Vec2::new(0.0, 0.0) }
    };

    assert_eq!(f(-1.0), Vec2::new(-1.0, -0.5));
    assert_eq!(f(0.0), Vec2::new(0.0, 0.0));
    assert_eq!(f(1.0), Vec2::new(1.0, 0.5));
    assert_eq!(f(2.0), Vec2::new(2.0, 1.0));
    assert_eq!(f(3.0), Vec2::new(1.5, 1.5));
    assert_eq!(f(4.0), Vec2::new(1.0, 2.0));
    assert_eq!(f(5.0), Vec2::new(0.5, 2.5));
}

#[test]
fn eased_sample_lies_between_the_values() {
    assert_eq!(
        generated("ease [0.0, 1.0], [2.0, 0.0], [4.0, 4.0]"),
        written(
            "{
                let smoothstep = |l: f32, r: f32, x: f32| {
                    let t = ((x - l) / (r - l)).clamp(0.0, 1.0);
                    t * t * (3.0 - 2.0 * t)
                };
                if x >= 2.0 { (smoothstep(2.0, 4.0, x) * (4.0 - 0.0) + 0.0) }
                else { (smoothstep(0.0, 2.0, x) * (0.0 - 1.0) + 1.0) }
            }"
        )
    );
    #[allow(unused_parens)]
    let f = |x: f32| {
        {
            let smoothstep = |l: f32, r: f32, x: f32| {
                let t = ((x - l) / (r - l)).clamp(0.0, 1.0);
                t * t * (3.0 - 2.0 * t)
            };
            if x >= 2.0 { (smoothstep(2.0, 4.0, x) * (4.0 - 0.0) + 0.0) }
            else { (smoothstep(0.0, 2.0, x) * (0.0 - 1.0) + 1.0) }
        }
    };
    for x in [0.25f32, 0.5, 1.5, 1.75] {
        assert!(f(x) < 1.0 && f(x) > 0.0);
    }
    for x in [2.25f32, 3.0, 3.5] {
        assert!(f(x) > 0.0 && f(x) < 4.0);
    }
    assert_eq!(f(0.5), 0.84375);
    assert_eq!(f(3.5), 3.375);
}

#[test]
fn vector_values_interpolate_by_component() {
    assert_eq!(
        generated("[0, Vec2::new(0.0, 0.0)], [2.0, Vec2::new(2.0, 1.0)]"),
        written("(x - 0) / (2.0 - 0) * (Vec2::new(2.0, 1.0) - Vec2::new(0.0, 0.0)) + Vec2::new(0.0, 0.0)")
    );
    let f = |x: f32| {
        (x - 0.0) / (2.0 - 0.0) * (Vec2::new(2.0, 1.0) - Vec2::new(0.0, 0.0)) + Vec2::new(0.0, 0.0)
    };
    assert_eq!(f(1.0), Vec2::new(1.0, 0.5));
}

#[test]
fn select_evaluates_like_if() {
    assert_eq!(
        generated("wgsl [0.0, 1.0], [2.0, 0.0], [4.0, 4.0]"),
        written(
            "select((x - 0.0) / (2.0 - 0.0) * (0.0 - 1.0) + 1.0, \
             (x - 2.0) / (4.0 - 2.0) * (4.0 - 0.0) + 0.0, x >= 2.0)"
        )
    );
    let select = |otherwise: f32, then: f32, condition: bool| if condition { then } else { otherwise };
    let f = |x: f32| {
        select((x - 0.0) / (2.0 - 0.0) * (0.0 - 1.0) + 1.0,
               (x - 2.0) / (4.0 - 2.0) * (4.0 - 0.0) + 0.0, x >= 2.0)
    };
    assert_eq!(f(-1.0), 1.5);
    assert_eq!(f(1.0), 0.5);
    assert_eq!(f(2.0), 0.0);
    assert_eq!(f(3.0), 2.0);
    assert_eq!(f(5.0), 6.0);
}
