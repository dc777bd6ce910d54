use nft_candy_machine_v2::config_lines::{can_add_config_lines, can_take_config_line, pad};
use nft_candy_machine_v2::{
    add_config_lines, get_config_count, get_config_line, get_space_for_candy, AddConfigLines,
    CandyMachine, CandyMachineData, ConfigLine, Constraint, ErrorCode, HiddenSetting, ProgramError,
    Pubkey,
};

fn key(n: u8) -> Pubkey {
    Pubkey { bytes: [n; 32] }
}

fn machine(items: u64) -> CandyMachine {
    CandyMachine {
        authority: key(1),
        wallet: key(2),
        token_mint: None,
        items_redeemed: 0,
        data: CandyMachineData {
            uuid: "abcdef".to_string(),
            price: 1,
            symbol: "SYM".to_string(),
            seller_fee_basis_points: 0,
            max_supply: 0,
            is_mutable: true,
            retain_authority: true,
            use_captcha: false,
            go_live_date: None,
            end_settings: None,
            creators: vec![],
            hidden_setting: None,
            whitelist_mint_settings: None,
            items_available: items,
        },
    }
}

fn accounts(items: u64) -> AddConfigLines {
    AddConfigLines {
        candy_machine: machine(items),
        candy_machine_is_writable: true,
        authority: key(1),
    }
}

fn blank(items: u64) -> Vec<u8> {
    vec![0u8; get_space_for_candy(&machine(items).data).unwrap()]
}

fn line(n: usize) -> ConfigLine {
    ConfigLine { name: format!("Item {}", n), uri: format!("https://example.org/{}", n) }
}

fn lines(from: usize, to: usize) -> Vec<ConfigLine> {
    (from..to).map(line).collect()
}

fn padded(s: &str, len: usize) -> String {
    format!("{}{}", s, "\0".repeat(len - s.len()))
}

fn hidden() -> Option<HiddenSetting> {
    Some(HiddenSetting { name: "Secret ".to_string(), uri: "u".to_string(), hash: [1; 32] })
}

#[test]
fn padding_counts_bytes() {
    assert_eq!(pad(&"abc".to_string(), 5), "abc\0\0");
    assert_eq!(pad(&"é".to_string(), 3), "é\0");
    assert_eq!(pad(&"abc".to_string(), 3), "abc");
}

#[test]
fn line_is_stored_with_fixed_lengths() {
    let mut data = blank(3);
    assert_eq!(add_config_lines(&accounts(3), &mut data, 1, &lines(1, 2)), Ok(()));
    let at = 681 + 4 + 240;
    assert_eq!(data[at..at + 4], [32, 0, 0, 0]);
    assert_eq!(data[at + 4..at + 36], *padded("Item 1", 32).as_bytes());
    assert_eq!(data[at + 36..at + 40], [200, 0, 0, 0]);
    assert_eq!(data[at + 40..at + 240], *padded("https://example.org/1", 200).as_bytes());
    assert_eq!(data[681..685], [1, 0, 0, 0]);
    let mask = 681 + 4 + 3 * 240 + 4;
    assert_eq!(data[mask..], [0b0100_0000]);
    assert!(data[685..at].iter().all(|b| *b == 0));
}

#[test]
fn mask_has_the_first_line_in_the_highest_bit() {
    let mut data = blank(10);
    assert_eq!(add_config_lines(&accounts(10), &mut data, 6, &lines(6, 10)), Ok(()));
    let mask = 681 + 4 + 10 * 240 + 4;
    assert_eq!(data[mask..], [0b0000_0011, 0b1100_0000]);
    assert_eq!(get_config_count(&data), Ok(4));
}

#[test]
fn lines_are_counted_once() {
    let mut data = blank(5);
    let a = accounts(5);
    assert_eq!(add_config_lines(&a, &mut data, 0, &lines(0, 3)), Ok(()));
    assert_eq!(get_config_count(&data), Ok(3));
    let once = data.clone();
    assert_eq!(add_config_lines(&a, &mut data, 0, &lines(0, 3)), Ok(()));
    assert_eq!(data, once);
    assert_eq!(add_config_lines(&a, &mut data, 2, &lines(2, 5)), Ok(()));
    assert_eq!(get_config_count(&data), Ok(5));
    assert_eq!(add_config_lines(&a, &mut data, 4, &vec![]), Ok(()));
    assert_eq!(get_config_count(&data), Ok(5));
}

#[test]
fn filled_line_is_read_back_padded() {
    let mut data = blank(4);
    assert_eq!(add_config_lines(&accounts(4), &mut data, 0, &lines(0, 4)), Ok(()));
    let read = get_config_line(&machine(4), &mut data, 2, 0).unwrap();
    assert_eq!(read.name, padded("Item 2", 32));
    assert_eq!(read.uri, padded("https://example.org/2", 200));
}

#[test]
fn taking_out_a_line_moves_later_lines_up() {
    let mut data = blank(4);
    assert_eq!(add_config_lines(&accounts(4), &mut data, 0, &lines(0, 4)), Ok(()));
    let before = data.clone();
    let taken = get_config_line(&machine(4), &mut data, 1, 0).unwrap();
    assert_eq!(taken.name, padded("Item 1", 32));
    assert_eq!(get_config_count(&data), Ok(3));
    assert_eq!(data.len(), before.len());
    assert_eq!(data[685..685 + 240], before[685..685 + 240]);
    assert_eq!(data[685 + 240..before.len() - 240], before[685 + 480..]);
    assert!(data[before.len() - 240..].iter().all(|b| *b == 0));
    let names: Vec<String> =
        (0..3).map(|_| get_config_line(&machine(4), &mut data, 0, 0).unwrap().name).collect();
    assert_eq!(names, vec![padded("Item 0", 32), padded("Item 2", 32), padded("Item 3", 32)]);
    assert_eq!(get_config_count(&data), Ok(0));
}

#[test]
fn index_behind_the_last_item_is_refused() {
    let mut data = blank(3);
    let before = data.clone();
    assert_eq!(
        add_config_lines(&accounts(3), &mut data, 3, &lines(0, 1)),
        Err(ProgramError::Candy(ErrorCode::IndexGreaterThanLength))
    );
    assert_eq!(data, before);
}

#[test]
fn index_behind_the_count_is_refused() {
    let mut data = blank(3);
    assert_eq!(add_config_lines(&accounts(3), &mut data, 0, &lines(0, 1)), Ok(()));
    let before = data.clone();
    assert_eq!(
        get_config_line(&machine(3), &mut data, 2, 0).err(),
        Some(ProgramError::Candy(ErrorCode::IndexGreaterThanLength))
    );
    assert_eq!(data, before);
}

#[test]
fn broken_line_is_refused() {
    let mut data = blank(3);
    data[681] = 2;
    let before = data.clone();
    assert_eq!(
        get_config_line(&machine(3), &mut data, 0, 0).err(),
        Some(ProgramError::BorshIoError)
    );
    data[685] = 255;
    assert_eq!(
        get_config_line(&machine(3), &mut data, 0, 0).err(),
        Some(ProgramError::BorshIoError)
    );
    assert_eq!(data[686..], before[686..]);
}

#[test]
fn line_that_is_not_text_is_refused() {
    let mut data = blank(2);
    assert_eq!(add_config_lines(&accounts(2), &mut data, 0, &lines(0, 2)), Ok(()));
    data[685 + 4] = 0xff;
    assert_eq!(
        get_config_line(&machine(2), &mut data, 0, 0).err(),
        Some(ProgramError::BorshIoError)
    );
}

#[test]
fn hidden_machine_takes_no_lines() {
    let mut a = accounts(3);
    a.candy_machine.data.hidden_setting = hidden();
    let mut data = blank(3);
    assert_eq!(
        add_config_lines(&a, &mut data, 0, &lines(0, 1)),
        Err(ProgramError::Candy(ErrorCode::HiddenSettingConfigsDoNotHaveConfigLines))
    );
    assert!(data.iter().all(|b| *b == 0));
}

#[test]
fn hidden_machine_numbers_its_items() {
    let mut m = machine(3);
    m.data.hidden_setting = hidden();
    let mut data: Vec<u8> = vec![];
    for n in [0u64, 8, 9, 99, 1_234_567, u64::MAX - 1] {
        let line = get_config_line(&m, &mut data, 0, n).unwrap();
        assert_eq!(line.name, format!("Secret #{}", n + 1));
        assert_eq!(line.uri, "u");
    }
}

#[test]
fn only_the_authority_fills_in_lines() {
    let mut data = blank(3);
    let mut a = accounts(3);
    a.authority = key(9);
    assert_eq!(
        add_config_lines(&a, &mut data, 0, &lines(0, 1)),
        Err(ProgramError::Constraint(Constraint::HasOne))
    );
    a.candy_machine_is_writable = false;
    assert_eq!(
        add_config_lines(&a, &mut data, 0, &lines(0, 1)),
        Err(ProgramError::Constraint(Constraint::Mut))
    );
    assert!(data.iter().all(|b| *b == 0));
}

#[test]
fn room_for_lines_is_tested() {
    let m = machine(9);
    let data = blank(9);
    assert!(can_add_config_lines(&m, &data, 0, &lines(0, 9)));
    assert!(can_add_config_lines(&m, &data, 8, &lines(0, 1)));
    assert!(can_add_config_lines(&m, &data, 9, &lines(0, 1)));
    assert!(!can_add_config_lines(&m, &data[..data.len() - 1], 0, &lines(0, 9)));
    assert!(can_add_config_lines(&m, &data[..data.len() - 1], 0, &lines(0, 8)));
    assert!(!can_add_config_lines(&m, &data[..684], 9, &vec![]));
    let long = vec![ConfigLine { name: "n".repeat(33), uri: String::new() }];
    assert!(!can_add_config_lines(&m, &data, 0, &long));
    assert!(!can_add_config_lines(&machine(0), &data, 0, &vec![]));
}

#[test]
fn line_to_take_is_tested() {
    let m = machine(3);
    let mut data = blank(3);
    assert!(can_take_config_line(&m, &data, 0, 0));
    assert!(can_take_config_line(&m, &data, 1, 0));
    assert!(!can_take_config_line(&m, &data[..684], 0, 0));
    assert!(!can_take_config_line(&m, &data[..685], 0, 0));
    assert_eq!(add_config_lines(&accounts(3), &mut data, 0, &lines(0, 1)), Ok(()));
    assert!(can_take_config_line(&m, &data, 0, 0));
    data[681] = 0;
    assert!(!can_take_config_line(&m, &data, 0, 0));
    let mut h = machine(3);
    h.data.hidden_setting = hidden();
    assert!(can_take_config_line(&h, &[], 0, 5));
    assert!(!can_take_config_line(&h, &[], 0, u64::MAX));
}
