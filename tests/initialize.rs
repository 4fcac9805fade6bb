use candy_machine::initialize::{
    cmp_pubkeys, get_space_for_candy, handle_initialize_candy_machine, pad_symbol,
    InitializeCandyMachine, TokenMintAccounts,
};
use candy_machine::layout::{compute_required_size, HEADER_SIZE, LINES_START, LINE_WIDTH, NAME_WIDTH};
use candy_machine::slots::get_config_count;
use candy_machine::state::{
    CandyError, CandyMachineData, CometMintSettings, Creator, HiddenSettings,
};
use candy_machine::template::{push_decimal, template_line};

fn data(n: u32) -> CandyMachineData {
    CandyMachineData {
        uuid: b"ABCDEF".to_vec(),
        price: 1_000_000,
        symbol: b"SYM".to_vec(),
        seller_fee_basis_points: 500,
        max_supply: 0,
        is_mutable: true,
        retain_authority: true,
        go_live_date: None,
        items_available: n,
        creators: vec![],
        hidden_settings: None,
        comet_mint_settings: None,
    }
}

fn templated(n: u32, name: &str, uri: &str, sequel: bool) -> CandyMachineData {
    let mut d = data(n);
    d.comet_mint_settings = Some(CometMintSettings {
        name: name.as_bytes().to_vec(),
        uri: uri.as_bytes().to_vec(),
        sequel_mint: sequel,
    });
    d
}

fn accounts(d: &CandyMachineData, token_mint: Option<TokenMintAccounts>) -> InitializeCandyMachine {
    InitializeCandyMachine {
        candy_machine: vec![0u8; get_space_for_candy(d).unwrap()],
        wallet: [1u8; 32],
        authority: [2u8; 32],
        token_mint,
    }
}

fn creator(k: u8) -> Creator {
    Creator { address: [k; 32], verified: false, share: 20 }
}

fn trim_zeros(s: &[u8]) -> &[u8] {
    let mut end = s.len();
    while end > 0 && s[end - 1] == 0 {
        end -= 1;
    }
    &s[..end]
}

#[test]
fn templated_table_of_two() {
    let n = 2;
    let d = templated(n, "Item", "ipfs://x/", false);
    let mut ctx = accounts(&d, None);
    let cm = handle_initialize_candy_machine(&mut ctx, d).unwrap();
    assert_eq!(cm.items_redeemed, 0);
    let buf = &ctx.candy_machine;
    for (slot, name, uri) in [(0usize, "Item #1", "ipfs://x/1"), (1, "Item #2", "ipfs://x/2")] {
        let off = LINES_START + slot * LINE_WIDTH;
        assert_eq!(trim_zeros(&buf[off..off + NAME_WIDTH]), name.as_bytes());
        assert_eq!(trim_zeros(&buf[off + NAME_WIDTH..off + LINE_WIDTH]), uri.as_bytes());
    }
    assert_eq!(get_config_count(buf), 2);
    assert_eq!(buf[LINES_START + 2 * LINE_WIDTH], 0b1100_0000);
}

#[test]
fn uuid_must_have_six_bytes() {
    for uuid in ["ABCDE", "ABCDEFG"] {
        let mut d = data(4);
        d.uuid = uuid.as_bytes().to_vec();
        let mut ctx = accounts(&d, None);
        let before = ctx.candy_machine.clone();
        assert_eq!(
            handle_initialize_candy_machine(&mut ctx, d).err(),
            Some(CandyError::UuidMustBeExactly6Length)
        );
        assert_eq!(ctx.candy_machine, before);
    }
}

#[test]
fn creators_leave_room_for_the_machine() {
    let mut d = data(4);
    d.creators = (0..5).map(creator).collect();
    let mut ctx = accounts(&d, None);
    assert_eq!(handle_initialize_candy_machine(&mut ctx, d).err(), Some(CandyError::TooManyCreators));
    let mut d = data(4);
    d.creators = (0..4).map(creator).collect();
    let mut ctx = accounts(&d, None);
    assert!(handle_initialize_candy_machine(&mut ctx, d).is_ok());
}

#[test]
fn token_mint_must_match_wallet() {
    let d = data(4);
    let mut ctx = accounts(&d, Some(TokenMintAccounts { mint: [7u8; 32], wallet_mint: [8u8; 32] }));
    assert_eq!(handle_initialize_candy_machine(&mut ctx, d).err(), Some(CandyError::MintMismatch));
    let d = data(4);
    let mut ctx = accounts(&d, Some(TokenMintAccounts { mint: [7u8; 32], wallet_mint: [7u8; 32] }));
    let cm = handle_initialize_candy_machine(&mut ctx, d).unwrap();
    assert_eq!(cm.token_mint, Some([7u8; 32]));
    assert_eq!(cm.authority, [2u8; 32]);
    assert_eq!(cm.wallet, [1u8; 32]);
}

#[test]
fn symbol_is_padded_or_rejected() {
    let d = data(1);
    let mut ctx = accounts(&d, None);
    let cm = handle_initialize_candy_machine(&mut ctx, d).unwrap();
    assert_eq!(cm.data.symbol, b"SYM\0\0\0\0\0\0\0".to_vec());
    assert_eq!(cm.data.uuid, b"ABCDEF".to_vec());
    assert_eq!(cm.data.price, 1_000_000);
    let mut d = data(1);
    d.symbol = b"SYMBOLSYMBO".to_vec();
    let mut ctx = accounts(&d, None);
    assert_eq!(handle_initialize_candy_machine(&mut ctx, d).err(), Some(CandyError::FieldTooLong));
    assert_eq!(pad_symbol(&b"ABCDEFGHIJ".to_vec()), b"ABCDEFGHIJ".to_vec());
}

#[test]
fn templated_name_too_long_is_rejected() {
    let d = templated(3, &"N".repeat(NAME_WIDTH - 3), "u/", false);
    let mut fits = accounts(&d, None);
    assert!(handle_initialize_candy_machine(&mut fits, d).is_ok());
    let d = templated(10, &"N".repeat(NAME_WIDTH - 3), "u/", false);
    let mut ctx = accounts(&d, None);
    let before = ctx.candy_machine.clone();
    assert_eq!(handle_initialize_candy_machine(&mut ctx, d).err(), Some(CandyError::FieldTooLong));
    assert_eq!(ctx.candy_machine, before);
}

#[test]
fn hidden_and_sequel_machines_hold_no_table() {
    let mut d = data(50);
    d.hidden_settings = Some(HiddenSettings { name: b"h".to_vec(), uri: b"u".to_vec(), hash: [0u8; 32] });
    assert_eq!(get_space_for_candy(&d), Ok(HEADER_SIZE));
    let mut ctx = accounts(&d, None);
    assert!(handle_initialize_candy_machine(&mut ctx, d).is_ok());
    assert!(ctx.candy_machine.iter().all(|b| *b == 0));
    let d = templated(50, "Item", "ipfs://x/", true);
    assert_eq!(get_space_for_candy(&d), Ok(HEADER_SIZE));
    let mut ctx = accounts(&d, None);
    assert!(handle_initialize_candy_machine(&mut ctx, d).is_ok());
    assert!(ctx.candy_machine.iter().all(|b| *b == 0));
}

#[test]
fn plain_table_starts_empty() {
    let d = data(10);
    assert_eq!(get_space_for_candy(&d), compute_required_size(10, true));
    let mut ctx = accounts(&d, None);
    assert!(handle_initialize_candy_machine(&mut ctx, d).is_ok());
    assert!(ctx.candy_machine.iter().all(|b| *b == 0));
}

#[test]
fn generated_lines_count_from_one() {
    let cms = CometMintSettings { name: b"Item".to_vec(), uri: b"ipfs://x/".to_vec(), sequel_mint: false };
    let l = template_line(&cms, 9);
    assert_eq!(l.name, b"Item #10".to_vec());
    assert_eq!(l.uri, b"ipfs://x/10".to_vec());
    let mut out = b"#".to_vec();
    push_decimal(&mut out, 4294967296);
    assert_eq!(out, b"#4294967296".to_vec());
    let mut out = vec![];
    push_decimal(&mut out, 0);
    assert_eq!(out, b"0".to_vec());
}

#[test]
fn pubkeys_compare_bytewise() {
    let a = [3u8; 32];
    let mut b = [3u8; 32];
    assert!(cmp_pubkeys(&a, &b));
    b[31] = 4;
    assert!(!cmp_pubkeys(&a, &b));
}
