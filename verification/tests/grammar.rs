use imgtools::{Color, Crop, GrammarError, Position};

#[test]
fn test_valid_crop_formats() {
    // Test center crop
    assert_eq!(
        Crop::from_str("center(100,200)").unwrap(),
        Crop::Center(100, 200)
    );

    // Test corner crops
    assert_eq!(
        Crop::from_str("topleft(100,200)").unwrap(),
        Crop::TopLeft(100, 200)
    );
    assert_eq!(
        Crop::from_str("topcenter(100,200)").unwrap(),
        Crop::TopCenter(100, 200)
    );
    assert_eq!(
        Crop::from_str("topright(100,200)").unwrap(),
        Crop::TopRight(100, 200)
    );

    // Test middle positions
    assert_eq!(
        Crop::from_str("middleleft(100,200)").unwrap(),
        Crop::MiddleLeft(100, 200)
    );
    assert_eq!(
        Crop::from_str("middleright(100,200)").unwrap(),
        Crop::MiddleRight(100, 200)
    );

    // Test bottom positions
    assert_eq!(
        Crop::from_str("bottomleft(100,200)").unwrap(),
        Crop::BottomLeft(100, 200)
    );
    assert_eq!(
        Crop::from_str("bottomcenter(100,200)").unwrap(),
        Crop::BottomCenter(100, 200)
    );
    assert_eq!(
        Crop::from_str("bottomright(100,200)").unwrap(),
        Crop::BottomRight(100, 200)
    );

    // Test custom position crop
    assert_eq!(
        Crop::from_str("custom(10,20,100,200)").unwrap(),
        Crop::Custom(10, 20, 100, 200)
    );

    // Test case insensitivity
    assert_eq!(
        Crop::from_str("CENTER(100,200)").unwrap(),
        Crop::Center(100, 200)
    );
    assert_eq!(
        Crop::from_str("TopLeft(100,200)").unwrap(),
        Crop::TopLeft(100, 200)
    );
}

#[test]
fn test_invalid_crop_formats() {
    // Test missing parentheses
    assert!(Crop::from_str("center100,200").is_err());

    // Test unmatched parentheses
    assert!(Crop::from_str("center(100,200").is_err());

    // Test incorrect number of parameters
    assert!(Crop::from_str("center(100)").is_err());
    assert!(Crop::from_str("center(100,200,300)").is_err());
    assert!(Crop::from_str("custom(10,20,100)").is_err());

    // Test invalid numbers
    assert!(Crop::from_str("center(abc,200)").is_err());
    assert!(Crop::from_str("center(-100,200)").is_err());

    // Test unknown crop position
    assert!(Crop::from_str("unknown(100,200)").is_err());

    // Test format errors
    assert!(Crop::from_str("center(100;200)").is_err());
    assert!(Crop::from_str("center(100, )").is_err());
}

#[test]
fn test_whitespace_handling() {
    // Test extra whitespace
    assert_eq!(
        Crop::from_str("center ( 100 , 200 )").unwrap(),
        Crop::Center(100, 200)
    );
    assert_eq!(
        Crop::from_str("custom( 10 , 20 , 100 , 200 )").unwrap(),
        Crop::Custom(10, 20, 100, 200)
    );
}

#[test]
fn test_color_parsing() {
    assert!(matches!(Color::from_str("white").unwrap(), Color::White));
    assert!(matches!(Color::from_str("Black").unwrap(), Color::Black));
    assert!(matches!(Color::from_str("RED").unwrap(), Color::Red));
    assert!(matches!(
        Color::from_str("rgba(255,0,128,64)").unwrap(),
        Color::Rgba(255, 0, 128, 64)
    ));
    assert!(matches!(
        Color::from_str("RGBA(10, 20, 30, 40)").unwrap(),
        Color::Rgba(10, 20, 30, 40)
    ));

    assert!(Color::from_str("invalid").is_err());
    assert!(Color::from_str("rgba(256,0,0,0)").is_err());
    assert!(Color::from_str("rgba(1,2,3)").is_err());
}

#[test]
fn test_position_from_str_fixed_positions() {
    // Test all fixed positions
    assert_eq!(Position::from_str("center").unwrap(), Position::Center);
    assert_eq!(Position::from_str("top-left").unwrap(), Position::TopLeft);
    assert_eq!(
        Position::from_str("top-center").unwrap(),
        Position::TopCenter
    );
    assert_eq!(Position::from_str("top-right").unwrap(), Position::TopRight);
    assert_eq!(
        Position::from_str("middle-left").unwrap(),
        Position::MiddleLeft
    );
    assert_eq!(
        Position::from_str("middle-right").unwrap(),
        Position::MiddleRight
    );
    assert_eq!(
        Position::from_str("bottom-left").unwrap(),
        Position::BottomLeft
    );
    assert_eq!(
        Position::from_str("bottom-center").unwrap(),
        Position::BottomCenter
    );
    assert_eq!(
        Position::from_str("bottom-right").unwrap(),
        Position::BottomRight
    );
}

#[test]
fn test_position_from_str_case_insensitive() {
    // Test case insensitivity
    assert_eq!(Position::from_str("CENTER").unwrap(), Position::Center);
    assert_eq!(Position::from_str("Top-Left").unwrap(), Position::TopLeft);
    assert_eq!(
        Position::from_str("BOTTOM-RIGHT").unwrap(),
        Position::BottomRight
    );
}

#[test]
fn test_position_from_str_custom() {
    // Test custom coordinates
    assert_eq!(
        Position::from_str("custom(0,0)").unwrap(),
        Position::Custom(0, 0)
    );
    assert_eq!(
        Position::from_str("custom(1,2)").unwrap(),
        Position::Custom(1, 2)
    );
    assert_eq!(
        Position::from_str("custom(10,20)").unwrap(),
        Position::Custom(10, 20)
    );

    // Test custom coordinates with whitespace
    assert_eq!(
        Position::from_str("custom(1, 2)").unwrap(),
        Position::Custom(1, 2)
    );
    assert_eq!(
        Position::from_str("custom( 1 , 2 )").unwrap(),
        Position::Custom(1, 2)
    );
}

#[test]
fn test_position_from_str_errors() {
    // Test invalid inputs
    assert!(Position::from_str("invalid").is_err());
    assert!(Position::from_str("custom").is_err());
    assert!(Position::from_str("custom()").is_err());
    assert!(Position::from_str("custom(1)").is_err());
    assert!(Position::from_str("custom(1,)").is_err());
    assert!(Position::from_str("custom(,1)").is_err());
    assert!(Position::from_str("custom(a,1)").is_err());
    assert!(Position::from_str("custom(1,b)").is_err());
    assert!(Position::from_str("custom(1,2,3)").is_err());
}

#[test]
fn crop_errors_are_distinct() {
    assert_eq!(
        Crop::from_str("center(100)"),
        Err(GrammarError::ArityMismatch)
    );
    assert_eq!(
        Crop::from_str("center(100,200"),
        Err(GrammarError::Unterminated)
    );
    assert_eq!(
        Crop::from_str("center(abc,200)"),
        Err(GrammarError::NonNumeric)
    );
    assert_eq!(
        Crop::from_str("center(-100,200)"),
        Err(GrammarError::NonNumeric)
    );
    assert_eq!(
        Crop::from_str("unknown(100,200)"),
        Err(GrammarError::UnknownIdentifier)
    );
    assert_eq!(
        Crop::from_str("center100,200"),
        Err(GrammarError::UnknownIdentifier)
    );
    assert_eq!(
        Crop::from_str("center"),
        Err(GrammarError::UnknownIdentifier)
    );
    assert_eq!(
        Crop::from_str("center(4294967296,1)"),
        Err(GrammarError::OutOfRange)
    );
    assert_eq!(
        Crop::from_str("center(4294967295,1)"),
        Ok(Crop::Center(4294967295, 1))
    );
    assert_eq!(Crop::from_str(""), Err(GrammarError::UnknownIdentifier));
    assert_eq!(Crop::from_str("center("), Err(GrammarError::Unterminated));
    assert_eq!(Crop::from_str("center()"), Err(GrammarError::NonNumeric));
    assert_eq!(
        Crop::from_str("custom(1,2,3,4,5)"),
        Err(GrammarError::ArityMismatch)
    );
}

#[test]
fn errors_come_in_a_fixed_order() {
    // A missing `)` is reported before anything else.
    assert_eq!(
        Crop::from_str("unknown(abc"),
        Err(GrammarError::Unterminated)
    );
    // A bad number is reported before the identifier is looked at.
    assert_eq!(Crop::from_str("unknown(abc)"), Err(GrammarError::NonNumeric));
    // The first bad argument decides.
    assert_eq!(
        Color::from_str("rgba(300,x,0,0)"),
        Err(GrammarError::OutOfRange)
    );
    assert_eq!(
        Color::from_str("rgba(x,300,0,0)"),
        Err(GrammarError::NonNumeric)
    );
    // An unknown identifier is reported before the number of arguments.
    assert_eq!(
        Position::from_str("nowhere(1,2,3)"),
        Err(GrammarError::UnknownIdentifier)
    );
}

#[test]
fn only_the_closing_parenthesis_is_stripped() {
    assert_eq!(
        Crop::from_str("center(100,200))"),
        Err(GrammarError::NonNumeric)
    );
    assert_eq!(
        Crop::from_str("center(100,200) "),
        Err(GrammarError::Unterminated)
    );
    assert_eq!(
        Crop::from_str("center((100,200)"),
        Err(GrammarError::NonNumeric)
    );
}

#[test]
fn whitespace_around_identifier_and_numbers() {
    assert_eq!(
        Crop::from_str("  center\t(\n100 ,\u{a0}200\u{3000})"),
        Ok(Crop::Center(100, 200))
    );
    assert_eq!(
        Position::from_str(" custom (1,2)"),
        Ok(Position::Custom(1, 2))
    );
    assert_eq!(
        Position::from_str("flat-lay ( 40 )"),
        Ok(Position::FlatLay(40))
    );
    assert_eq!(
        Color::from_str(" rgba ( 1 , 2 , 3 , 4 )"),
        Ok(Color::Rgba(1, 2, 3, 4))
    );
    // Whitespace inside a number or an identifier is not ignored.
    assert_eq!(
        Crop::from_str("center(1 0,2)"),
        Err(GrammarError::NonNumeric)
    );
    assert_eq!(
        Crop::from_str("cen ter(1,2)"),
        Err(GrammarError::UnknownIdentifier)
    );
    // A bare identifier is matched exactly.
    assert_eq!(
        Position::from_str(" center"),
        Err(GrammarError::UnknownIdentifier)
    );
    assert_eq!(
        Color::from_str("white "),
        Err(GrammarError::UnknownIdentifier)
    );
}

#[test]
fn numbers_may_carry_a_plus_sign_and_leading_zeros() {
    assert_eq!(Crop::from_str("center(+1,002)"), Ok(Crop::Center(1, 2)));
    assert_eq!(Crop::from_str("center(+,2)"), Err(GrammarError::NonNumeric));
    assert_eq!(
        Crop::from_str("center(++1,2)"),
        Err(GrammarError::NonNumeric)
    );
    assert_eq!(
        Crop::from_str("center(1_000,2)"),
        Err(GrammarError::NonNumeric)
    );
    assert_eq!(
        Crop::from_str("center(0x10,2)"),
        Err(GrammarError::NonNumeric)
    );
    assert_eq!(
        Crop::from_str("center(00000000000000000000000000000007,2)"),
        Ok(Crop::Center(7, 2))
    );
    assert_eq!(
        Crop::from_str("center(99999999999999999999999999999999999999999999,2)"),
        Err(GrammarError::OutOfRange)
    );
    assert_eq!(
        Crop::from_str("center(9999999999999999999999999999999999999999999x,2)"),
        Err(GrammarError::NonNumeric)
    );
}

#[test]
fn letters_outside_ascii() {
    assert_eq!(Color::from_str("BLACK"), Ok(Color::Black));
    // The Kelvin sign is a capital of `k`.
    assert_eq!(Color::from_str("BLAC\u{212a}"), Ok(Color::Black));
    assert_eq!(Color::from_str("blac\u{212a}"), Ok(Color::Black));
    // No other letter outside ASCII has a lower case among the identifiers.
    assert_eq!(
        Color::from_str("WH\u{130}TE"),
        Err(GrammarError::UnknownIdentifier)
    );
    assert_eq!(
        Color::from_str("\u{ff32}ED"),
        Err(GrammarError::UnknownIdentifier)
    );
    assert_eq!(
        Crop::from_str("center(\u{661},2)"),
        Err(GrammarError::NonNumeric)
    );
    assert_eq!(
        Crop::from_str("center(\u{ff11},2)"),
        Err(GrammarError::NonNumeric)
    );
}

#[test]
fn position_forms() {
    assert_eq!(Position::from_str("flat-lay(40)"), Ok(Position::FlatLay(40)));
    assert_eq!(Position::from_str("FLAT-LAY(0)"), Ok(Position::FlatLay(0)));
    assert_eq!(
        Position::from_str("flat-lay(1,2)"),
        Err(GrammarError::ArityMismatch)
    );
    assert_eq!(
        Position::from_str("flat-lay"),
        Err(GrammarError::UnknownIdentifier)
    );
    assert_eq!(
        Position::from_str("flat-lay(40"),
        Err(GrammarError::Unterminated)
    );
    assert_eq!(
        Position::from_str("center(1)"),
        Err(GrammarError::ArityMismatch)
    );
    assert_eq!(
        Position::from_str("custom(4294967296,0)"),
        Err(GrammarError::OutOfRange)
    );
    assert_eq!(
        Position::from_str("flat-lay(340282366920938463463374607431768211456)"),
        Err(GrammarError::OutOfRange)
    );
    assert_eq!(
        Position::from_str(&format!("flat-lay({})", usize::MAX)),
        Ok(Position::FlatLay(usize::MAX))
    );
    assert_eq!(
        Position::from_str("topleft"),
        Err(GrammarError::UnknownIdentifier)
    );
    assert_eq!(Position::default(), Position::Center);
}

#[test]
fn color_forms() {
    assert_eq!(Color::from_str("green"), Ok(Color::Green));
    assert_eq!(Color::from_str("Blue"), Ok(Color::Blue));
    assert_eq!(
        Color::from_str("rgba(255,255,255,255)"),
        Ok(Color::Rgba(255, 255, 255, 255))
    );
    assert_eq!(
        Color::from_str("rgba(256,0,0,0)"),
        Err(GrammarError::OutOfRange)
    );
    assert_eq!(
        Color::from_str("rgba(1,2,3)"),
        Err(GrammarError::ArityMismatch)
    );
    assert_eq!(
        Color::from_str("rgba(1,2,3,4,5)"),
        Err(GrammarError::ArityMismatch)
    );
    assert_eq!(
        Color::from_str("rgba(1,2,3,-4)"),
        Err(GrammarError::NonNumeric)
    );
    assert_eq!(
        Color::from_str("rgba(1,2,3,4"),
        Err(GrammarError::Unterminated)
    );
    assert_eq!(
        Color::from_str("rgb(1,2,3)"),
        Err(GrammarError::UnknownIdentifier)
    );
    assert_eq!(Color::from_str("rgba"), Err(GrammarError::UnknownIdentifier));
    assert_eq!(Color::from_str("white(1)"), Err(GrammarError::ArityMismatch));
    assert_eq!(Color::default(), Color::White);
}

#[test]
fn color_channels() {
    assert_eq!(Color::White.to_rgba(), [255, 255, 255, 255]);
    assert_eq!(Color::Black.to_rgba(), [0, 0, 0, 255]);
    assert_eq!(Color::Red.to_rgba(), [255, 0, 0, 255]);
    assert_eq!(Color::Green.to_rgba(), [0, 255, 0, 255]);
    assert_eq!(Color::Blue.to_rgba(), [0, 0, 255, 255]);
    assert_eq!(Color::Rgba(1, 2, 3, 4).to_rgba(), [1, 2, 3, 4]);
}

#[test]
fn parsing_ignores_case() {
    let inputs = [
        "Center(100,200)",
        "CUSTOM(1,2,3,4)",
        "Top-Right",
        "Flat-Lay(7)",
        "RGBA(1,2,3,4)",
        "WHITE",
        "nonsense(",
        "Center(1",
    ];
    for input in inputs {
        let lowered = input.to_ascii_lowercase();
        assert_eq!(Crop::from_str(&lowered), Crop::from_str(input));
        assert_eq!(Position::from_str(&lowered), Position::from_str(input));
        assert_eq!(Color::from_str(&lowered), Color::from_str(input));
    }
}

#[test]
fn canonical_text() {
    assert_eq!(Crop::Center(100, 200).to_string(), "center(100,200)");
    assert_eq!(Crop::BottomRight(0, 7).to_string(), "bottomright(0,7)");
    assert_eq!(
        Crop::Custom(10, 20, 100, 4294967295).to_string(),
        "custom(10,20,100,4294967295)"
    );
    assert_eq!(Position::TopRight.to_string(), "top-right");
    assert_eq!(Position::Custom(1, 20).to_string(), "custom(1,20)");
    assert_eq!(Position::FlatLay(40).to_string(), "flat-lay(40)");
    assert_eq!(Color::Red.to_string(), "red");
    assert_eq!(
        Color::Rgba(255, 0, 128, 64).to_string(),
        "rgba(255,0,128,64)"
    );
}

#[test]
fn canonical_text_round_trips() {
    let crops = [
        Crop::Center(1, 2),
        Crop::TopLeft(0, 0),
        Crop::TopCenter(10, 4294967295),
        Crop::TopRight(9, 10),
        Crop::MiddleLeft(99, 100),
        Crop::MiddleRight(101, 1000),
        Crop::BottomLeft(4294967295, 4294967295),
        Crop::BottomCenter(5, 6),
        Crop::BottomRight(7, 8),
        Crop::Custom(0, 4294967295, 12, 3),
    ];
    for crop in crops {
        assert_eq!(Crop::from_str(&crop.to_string()), Ok(crop));
    }
    let positions = [
        Position::Center,
        Position::TopLeft,
        Position::TopCenter,
        Position::TopRight,
        Position::MiddleLeft,
        Position::MiddleRight,
        Position::BottomLeft,
        Position::BottomCenter,
        Position::BottomRight,
        Position::Custom(0, 4294967295),
        Position::FlatLay(0),
        Position::FlatLay(usize::MAX),
    ];
    for position in positions {
        assert_eq!(Position::from_str(&position.to_string()), Ok(position));
    }
    let colors = [
        Color::White,
        Color::Black,
        Color::Red,
        Color::Green,
        Color::Blue,
        Color::Rgba(0, 9, 10, 255),
    ];
    for color in colors {
        assert_eq!(Color::from_str(&color.to_string()), Ok(color));
    }
}

#[test]
fn error_messages() {
    assert_eq!(
        GrammarError::UnknownIdentifier.message(),
        "Unknown identifier"
    );
    assert_eq!(
        GrammarError::ArityMismatch.message(),
        "Format error: The number of parameters does not match"
    );
    assert_eq!(
        GrammarError::NonNumeric.message(),
        "The parameter must be a non-negative integer"
    );
    assert_eq!(
        GrammarError::Unterminated.message(),
        "Format error: Need to end with ')'"
    );
    assert_eq!(
        GrammarError::OutOfRange.message(),
        "The parameter is out of range"
    );
}
