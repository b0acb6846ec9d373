use fixed::types::extra::U4;
use fixed::FixedI8;
use softbody::aux::{AuxRow, AuxState, Lin, SafeIndex, Weight};
use softbody::colour_style;

#[test]
fn weights_hold_fixed_point_values() {
    let half: Lin = FixedI8::<U4>::from_bits(8);
    let w = Weight::Scaled { parr: half, perp: Lin::ZERO };
    match w {
        Weight::Scaled { parr, perp } => {
            assert_eq!(parr.to_bits(), 8);
            assert_eq!(perp.to_bits(), 0);
        }
        Weight::Zero => panic!("expected a scaled weight"),
    }
}

#[test]
fn aux_row_new_accepts_any_weights() {
    let one: Lin = Lin::from_bits(16);
    AuxRow::<2>::new([Weight::Zero, Weight::Scaled { parr: one, perp: one }]);
    let state = AuxState::<2, 1> {
        transform: [AuxRow { weights: [Weight::Zero, Weight::Zero] }],
    };
    assert!(matches!(state.transform[0].weights[1], Weight::Zero));
}

#[test]
fn safe_index_and_colour() {
    let i = SafeIndex::<4>(3);
    assert_eq!(i.0, 3);
    let c = colour_style::Colour([1, 2, 3]);
    match c {
        colour_style::Colour(rgb) => assert_eq!(rgb, [1, 2, 3]),
    }
}
