use cyb_playfair::{prepare, prepare_decode, prepare_uppercase, Playfair, PlayfairError};

const KEY: &str = "PLAYFIREXMBCDGHKNOQSTUVWZ";

fn text(letters: Vec<char>) -> String {
    letters.iter().collect::<String>()
}

#[test]
fn test_prepare() {
    assert_eq!("PLAINZ", prepare("plain").iter().collect::<String>());
    assert_eq!("AOOC", prepare("AOOC").iter().collect::<String>());
    assert_eq!("AOOXOC", prepare("AOOOC").iter().collect::<String>());
    assert_eq!(
        "VEEDAXAEKXKPYZ",
        prepare("VEEDAAEKKPY").iter().collect::<String>()
    );
}

#[test]
fn test_encode() {
    let encoder = Playfair::new("PLAYFIREXMBCDGHKNOQSTUVWZ");
    assert_eq!("ZGRUMDPV", encoder.encode("WHITEHAT").unwrap());

    assert_eq!(
        "YDQEQGASQGDKVTMKLDQEVTDKVT",
        encoder.encode("AGOODFOODBOOKISACOOKBOOK").unwrap()
    );

    let encoder = Playfair::new("OZAKDIREXMBCVGHYNPQSTUFWL");
    assert_eq!(
        "UZMENRPDBKIMMENUIMBV",
        encoder.encode("TODAYISAGOODDAYTODIE").unwrap()
    );
}

#[test]
fn test_decode() {
    let encoder = Playfair::new("PLAYFIREXMBCDGHKNOQSTUVWZ");
    assert_eq!("WHITEHAT", encoder.decode("ZGRUMDPV").unwrap());

    assert_eq!(
        "AGOXODFOODBOOKISACOXOKBOOK",
        encoder.decode("YDQEQGASQGDKVTMKLDQEVTDKVT").unwrap()
    );

    let encoder = Playfair::new("OZAKDIREXMBCVGHYNPQSTUFWL");
    assert_eq!(
        "TODAYISAGOODDAYTODIE",
        encoder.decode("UZMENRPDBKIMMENUIMBV").unwrap()
    );
}

#[test]
fn prepared_ready_text_is_unchanged() {
    assert_eq!("AOOC", text(prepare_uppercase("AOOC")));
    assert_eq!("HELOWORL", text(prepare_uppercase("HELOWORL")));
    assert_eq!("", text(prepare("")));
}

#[test]
fn odd_text_gets_trailing_z() {
    assert_eq!("PLAINZ", text(prepare_uppercase("PLAIN")));
    assert_eq!("AZ", text(prepare("a")));
}

#[test]
fn doubled_letters_are_split() {
    assert_eq!("AOOXOC", text(prepare_uppercase("AOOOC")));
    assert_eq!("VEEDAXAEKXKPYZ", text(prepare_uppercase("VEEDAAEKKPY")));
    assert_eq!("AXAZ", text(prepare("aa")));
    assert_eq!("XXXZ", text(prepare("XX")));
}

#[test]
fn j_becomes_i() {
    assert_eq!("IAMZ", text(prepare("jam")));
    assert_eq!("IXIZ", text(prepare_uppercase("JI")));
}

#[test]
fn prepare_upper_cases_text() {
    assert_eq!("HELXLO", text(prepare("hello")));
    assert_eq!(vec!['A', 'B'], prepare_decode("ab").unwrap());
}

#[test]
fn round_trip_recovers_prepared_text() {
    let cipher = Playfair::new(KEY);
    for plain in ["hidethegoldinthetreestump", "balloon", "xx", "zebra", "jazz"] {
        let prepared = text(prepare(plain));
        let encoded = cipher.encode(plain).unwrap();
        assert_eq!(prepared, cipher.decode(&encoded).unwrap());
    }
}

#[test]
fn pairs_by_letters() {
    let cipher = Playfair::new(KEY);
    let letters = prepare("WHITEHAT");
    let encoded = cipher.encode_letters(&letters).unwrap();
    assert_eq!("ZGRUMDPV", encoded);
    let back: Vec<char> = encoded.chars().collect();
    assert_eq!("WHITEHAT", cipher.decode_letters(&back).unwrap());
}

#[test]
fn same_row_moves_down() {
    let cipher = Playfair::new(KEY);
    // P and L share the first row: each takes the letter below it.
    assert_eq!("IR", cipher.encode("PL").unwrap());
    assert_eq!("PL", cipher.decode("IR").unwrap());
}

#[test]
fn same_column_moves_right() {
    let cipher = Playfair::new(KEY);
    // P and I share the first column: each takes the letter to its right.
    assert_eq!("LR", cipher.encode("PI").unwrap());
    assert_eq!("PI", cipher.decode("LR").unwrap());
}

#[test]
fn rectangle_swaps_columns() {
    let cipher = Playfair::new(KEY);
    assert_eq!("LI", cipher.encode("PR").unwrap());
    assert_eq!("PR", cipher.decode("LI").unwrap());
}

#[test]
fn last_row_wraps_to_first() {
    let cipher = Playfair::new(KEY);
    assert_eq!("PL", cipher.encode("TU").unwrap());
    assert_eq!("TU", cipher.decode("PL").unwrap());
}

#[test]
fn last_column_wraps_to_first() {
    let cipher = Playfair::new(KEY);
    assert_eq!("PT", cipher.encode("FZ").unwrap());
    assert_eq!("FZ", cipher.decode("PT").unwrap());
}

#[test]
fn decode_refuses_odd_length() {
    let cipher = Playfair::new(KEY);
    assert_eq!(Err(PlayfairError::OddLength), cipher.decode("ABC"));
    assert_eq!(Err(PlayfairError::OddLength), cipher.decode("JAB"));
    assert_eq!(Err(PlayfairError::OddLength), prepare_decode("X"));
}

#[test]
fn decode_refuses_j() {
    let cipher = Playfair::new(KEY);
    assert_eq!(Err(PlayfairError::ForbiddenCharacter), cipher.decode("JA"));
    assert_eq!(Err(PlayfairError::ForbiddenCharacter), prepare_decode("ABJC"));
}

#[test]
fn letters_outside_grid_fail() {
    let cipher = Playfair::new(KEY);
    assert_eq!(Err(PlayfairError::CharacterNotInGrid), cipher.encode("ab1d"));
    // A lower-case 'j' passes the check, and its upper case is not in this grid.
    assert_eq!(Err(PlayfairError::CharacterNotInGrid), cipher.decode("ja"));
}

#[test]
fn empty_text() {
    let cipher = Playfair::new(KEY);
    assert_eq!("", cipher.encode("").unwrap());
    assert_eq!("", cipher.decode("").unwrap());
}

#[test]
fn error_messages() {
    assert!(PlayfairError::OddLength.message().contains("even"));
    assert!(PlayfairError::ForbiddenCharacter.message().contains('J'));
    assert!(PlayfairError::CharacterNotInGrid.message().contains("grid"));
}
