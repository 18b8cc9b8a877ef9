use open_jsw::game::{
    identify_game, signature, GameType, JSW2_GAME_LENGTH, JSW2_SIGNATURE_OFFSET, JSW_GAME_LENGTH,
    JSW_SIGNATURE_OFFSET, MM_GAME_LENGTH, MM_SIGNATURE_OFFSET,
};
use open_jsw::Error;

fn archive_with(t: GameType, start: usize, offset: usize, length: usize) -> Vec<u8> {
    let mut bytes = vec![0u8; start + length];
    let sig = signature(t);
    bytes[start + offset..start + offset + sig.len()].copy_from_slice(&sig);
    bytes
}

#[test]
fn identifies_each_variant_with_its_start_index() {
    let cases = [
        (GameType::MM, MM_SIGNATURE_OFFSET, MM_GAME_LENGTH),
        (GameType::JSW, JSW_SIGNATURE_OFFSET, JSW_GAME_LENGTH),
        (GameType::JSW2, JSW2_SIGNATURE_OFFSET, JSW2_GAME_LENGTH),
    ];
    for (t, offset, length) in cases {
        let bytes = archive_with(t, 17, offset, length);
        let game = identify_game(&bytes).unwrap();
        assert_eq!(*game.game_type(), t);
        assert_eq!(game.start_index(), 17);
        assert_eq!(game.game_bytes().len(), length);
        assert_eq!(game.game_length(), 17 + length);
    }
}

#[test]
fn signatures_differ_only_in_last_byte_for_first_two_games() {
    let mm = signature(GameType::MM);
    let jsw = signature(GameType::JSW);
    assert_eq!(mm.len(), jsw.len());
    assert_eq!(mm[..mm.len() - 1], jsw[..jsw.len() - 1]);
    assert_ne!(mm[mm.len() - 1], jsw[jsw.len() - 1]);
}

#[test]
fn signature_before_lookback_is_not_a_match() {
    let sig = signature(GameType::JSW);
    let mut bytes = vec![0u8; 0x9000];
    bytes[10..10 + sig.len()].copy_from_slice(&sig);
    assert!(matches!(identify_game(&bytes), Err(Error::GameNotRecognised)));
}

#[test]
fn scan_continues_past_too_early_match() {
    let sig = signature(GameType::JSW);
    let start = 40;
    let mut bytes = vec![0u8; start + JSW_GAME_LENGTH];
    bytes[5..5 + sig.len()].copy_from_slice(&sig);
    let p = start + JSW_SIGNATURE_OFFSET;
    bytes[p..p + sig.len()].copy_from_slice(&sig);
    let game = identify_game(&bytes).unwrap();
    assert_eq!(*game.game_type(), GameType::JSW);
    assert_eq!(game.start_index(), start);
}

#[test]
fn archive_too_short_for_payload_is_not_recognised() {
    let mut bytes = archive_with(GameType::MM, 0, MM_SIGNATURE_OFFSET, MM_GAME_LENGTH);
    bytes.truncate(MM_GAME_LENGTH - 1);
    assert!(matches!(identify_game(&bytes), Err(Error::GameNotRecognised)));
}

#[test]
fn empty_archive_is_not_recognised() {
    assert!(matches!(identify_game(&[]), Err(Error::GameNotRecognised)));
}

#[test]
fn first_variant_in_order_wins() {
    let mut bytes = archive_with(GameType::JSW2, 0, JSW2_SIGNATURE_OFFSET, JSW2_GAME_LENGTH);
    let sig = signature(GameType::MM);
    let p = MM_SIGNATURE_OFFSET + 2;
    bytes[p..p + sig.len()].copy_from_slice(&sig);
    let game = identify_game(&bytes).unwrap();
    assert_eq!(*game.game_type(), GameType::MM);
    assert_eq!(game.start_index(), 2);
}
