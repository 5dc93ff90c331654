use squitterator::calc::bit_location;
use squitterator::{
    clean_squitter, get_capability, get_downlink_format, get_icao, get_message, get_message_type,
    get_wake_turbulence_category,
};

#[test]
fn test_get_message() {
    let squitter = "8D40621D58C382D690C8AC2863A7";
    match get_message(squitter) {
        Some(message) => assert_eq!(
            message,
            vec![
                8, 13, 4, 0, 6, 2, 1, 13, 5, 8, 12, 3, 8, 2, 13, 6, 9, 0, 12, 8, 10, 12, 2, 8, 6,
                3, 10, 7
            ]
        ),
        None => panic!("Failed to convert squitter to message"),
    }
}

#[test]
fn test_message_short() {
    let squitter = "02E197B00179C3";
    match get_message(squitter) {
        Some(message) => assert_eq!(message, vec![0, 2, 14, 1, 9, 7, 11, 0, 0, 1, 7, 9, 12, 3]),
        None => panic!("Failed to convert squitter to message"),
    }
}

#[test]
fn test_get_capability() {
    let squitter = "8D40621D58C382D690C8AC2863A7";
    if let Some(message) = get_message(squitter) {
        assert_eq!(get_capability(&message), 5);
    }
}

#[test]
fn test_message_type() {
    let squitter = "8D40621D58C382D690C8AC2863A7";
    if let Some(message) = get_message(squitter) {
        let (message_type, message_subtype) = get_message_type(&message);
        assert_eq!(message_type, 11);
        assert_eq!(message_subtype, 0);
    }
}

#[test]
fn test_bit_location() {
    assert_eq!(bit_location(33), (8, 0));
    assert_eq!(bit_location(34), (8, 1));
    assert_eq!(bit_location(35), (8, 2));
    assert_eq!(bit_location(36), (8, 3));
    assert_eq!(bit_location(37), (9, 0));
    assert_eq!(bit_location(38), (9, 1));
    assert_eq!(bit_location(39), (9, 2));
    assert_eq!(bit_location(40), (9, 3));
    assert_eq!(bit_location(1), (0, 0));
    assert_eq!(bit_location(57), (14, 0));
    assert_eq!(bit_location(88), (21, 3));
}

#[test]
fn swap() {
    let (mut a, mut b) = (18, 654);
    std::mem::swap(&mut a, &mut b);
    assert_eq!((a, b), (654, 18));
}

#[test]
fn test_shift() {
    assert_eq!(2048 / 2, 2048 >> 1);
    assert_eq!(2048 / 4, 2048 >> 2);
    assert_eq!(2048 / 8, 2048 >> 3);
    assert_eq!(2048 / 16, 2048 >> 4);
    assert_eq!(2048 / 32, 2048 >> 5);
    assert_eq!(2048 / 64, 2048 >> 6);
    assert_eq!(2048 / 128, 2048 >> 7);
    assert_eq!(2048 / 256, 2048 >> 8);
    assert_eq!(2048 / 512, 2048 >> 9);
    assert_eq!(2048 / 1024, 2048 >> 10);
}

#[test]
fn test_clean_squitter() {
    let line = "009736E3E0B75D406890DB5905";
    if let Some(result) = clean_squitter(line) {
        assert_eq!(result, [5, 13, 4, 0, 6, 8, 9, 0, 13, 11, 5, 9, 0, 5]);
    }
}

#[test]
fn test_sbs_squitter() {
    let line = "@009736E2736B8D40717EF82100020049B8A8887A;";
    if let Some(result) = clean_squitter(line) {
        assert_eq!(
            result,
            [
                8, 13, 4, 0, 7, 1, 7, 14, 15, 8, 2, 1, 0, 0, 0, 2, 0, 0, 4, 9, 11, 8, 10, 8, 8, 8,
                7, 10
            ]
        );
    }
}

#[test]
fn test_icao() {
    let squitters = [
        ("8D40621D58C382D690C8AC2863A7", 4219421),
        ("A0001838300000000000007ADA59", 7453696),
        ("A800161110010080E6000073D501", 7453696),
        ("A800120110010080F600001AFEDD", 4921598),
        ("8D71BC009901DC93C0070788AE4B", 7453696),
        ("8D71BC0060C386EC2FFDEEEBCE0C", 7453696),
        ("8DA7F6429B053D0000000060D7AE", 11007554),
        ("8D4B18FE68BF033F523BF5BAAAEB", 4921598),
        ("28001A1B1F0706", 5023854),
        ("8D4CA86E58B15398DA1B2834CF37", 5023854),
        ("A425B00A580840092F81204A5821", 11188242),
        ("A020100A10020A80F000004F24AF", 12612818),
    ];

    for (squitter, value) in squitters.iter() {
        if let Some(message) = get_message(squitter) {
            if let Some(df) = get_downlink_format(&message) {
                if let Some(result) = get_icao(&message, df) {
                    assert_eq!(result, *value, "Squitter: {} ICAO:{:X}", squitter, result);
                }
            }
        }
    }
}

#[test]
fn test_get_wake_turbulence_category() {
    let vcs = [
        ((4, 1), 'L'),
        ((4, 2), 'S'),
        ((4, 3), 'M'),
        ((4, 4), 'H'),
        ((4, 5), 'J'),
        ((4, 7), 'R'),
    ];

    for (vc, value) in vcs.iter() {
        if let Some(result) = get_wake_turbulence_category(vc) {
            assert_eq!(result, *value, "VC: {:?}", vc);
        }
    }
}

#[test]
fn test_get_wake_turbulence_category_none() {
    let vcs = [(4, 0), (4, 6)];

    for vc in vcs.iter() {
        assert_eq!(get_wake_turbulence_category(vc), None, "VC: {:?}", vc);
    }
}

#[test]
fn downlink_test_df_17() {
    let squitter = "8D40621D58C382D690C8AC2863A7";
    if let Some(message) = get_message(squitter) {
        let result = get_downlink_format(&message).unwrap_or(0);
        assert_eq!(result, 17);
    }
}

#[test]
fn downlink_test_df_21() {
    let squitter = "A8281200200464B3CF7820CD194C";
    if let Some(message) = get_message(squitter) {
        let result = get_downlink_format(&message).unwrap_or(0);
        assert_eq!(result, 21);
    }
}

#[test]
fn test_df_22() {
    let squitter = "A020100A10020A80F000004F24AF";
    if let Some(message) = get_message(squitter) {
        let result = get_downlink_format(&message).unwrap_or(0);
        assert_eq!(result, 20);
    }
}
