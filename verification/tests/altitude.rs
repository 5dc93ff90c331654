use squitterator::altitude::altitude;
use squitterator::gray::graytobin;
use squitterator::{df, message};

#[test]
fn test_alt() {
    if let Some(message) = message("A8281200200464B3CF7820CD194C") {
        let df = df(&message).unwrap();
        let result = altitude(&message, df);
        assert_eq!(result, Some(14300));
    }
}

#[test]
fn test_alt_e() {
    if let Some(message) = message("A020100A10020A80F000004F24AF") {
        let df = df(&message).unwrap();
        let result = altitude(&message, df);
        assert_eq!(result, None);
    }
}

#[test]
fn test_graytobin() {
    if let Some(message) = message("A8281200200464B3CF7820CD194C") {
        let (high, low) = graytobin(&message);
        assert_eq!(high, 31);
        assert_eq!(low, 0);
    }
}

#[test]
fn test_graytobin_e() {
    if let Some(message) = message("A020100A10020A80F000004F24AF") {
        let (high, low) = graytobin(&message);
        assert_eq!(high, 2);
        assert_eq!(low, 0);
    }
}

#[test]
fn mod_test_df_17() {
    let squitter = "8D40621D58C382D690C8AC2863A7";
    if let Some(message) = message(squitter) {
        let result = df(&message).unwrap_or(0);
        assert_eq!(result, 17);
    }
}

#[test]
fn mod_test_df_21() {
    let squitter = "A8281200200464B3CF7820CD194C";
    if let Some(message) = message(squitter) {
        let result = df(&message).unwrap_or(0);
        assert_eq!(result, 21);
    }
}

// The 38000-ft airborne position squitter from the worked examples of the
// extended squitter format.
#[test]
fn test_alt_extended() {
    if let Some(message) = message("8D40621D58C382D690C8AC2863A7") {
        let df = df(&message).unwrap();
        assert_eq!(altitude(&message, df), Some(38000));
    }
}
