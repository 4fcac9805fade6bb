//! Creating a candy machine: checking what it is created from, building its
//! header, and pre-filling a generated table of config lines.
use vstd::prelude::*;

use crate::bitmask::{filled_below, le_u32, slot_bit, stored_count, table_wf};
use crate::layout::{compute_required_size, required_size, MAX_CREATORS, SYMBOL_WIDTH};
use crate::slots::{lines_fit, pad, slots_written};
use crate::state::{has_table, CandyError, CandyMachine, CandyMachineData, Pubkey};
use crate::template::{add_comet_config_lines, generates_lines, template_lines};

verus! {

/// The mint given for payments, and the mint of the wallet's token account,
/// both as read from accounts that were checked to be initialized token
/// accounts owned by the token program.
#[derive(Debug, Clone, Copy)]
pub struct TokenMintAccounts {
    pub mint: Pubkey,
    pub wallet_mint: Pubkey,
}

/// The accounts a candy machine is created with: the zeroed data of the new
/// account, the wallet that receives payments, the authority, and, when
/// payments are in a token, the mint accounts.
#[derive(Debug, Clone)]
pub struct InitializeCandyMachine {
    pub candy_machine: Vec<u8>,
    pub wallet: Pubkey,
    pub authority: Pubkey,
    pub token_mint: Option<TokenMintAccounts>,
}

/// The error that creating a candy machine from `data` reports, if any.
pub open spec fn initialize_error(data: CandyMachineData, token_mint: Option<TokenMintAccounts>) -> Option<CandyError> {
    if data.uuid@.len() != 6 {
        Some(CandyError::UuidMustBeExactly6Length)
    } else if token_mint is Some && token_mint->Some_0.wallet_mint@ != token_mint->Some_0.mint@ {
        Some(CandyError::MintMismatch)
    } else if data.symbol@.len() > SYMBOL_WIDTH {
        Some(CandyError::FieldTooLong)
    } else if data.creators@.len() > MAX_CREATORS - 1 {
        Some(CandyError::TooManyCreators)
    } else if has_table(data) && generates_lines(data) && !lines_fit(
        template_lines(
            data.comet_mint_settings->Some_0.name@,
            data.comet_mint_settings->Some_0.uri@,
            data.items_available as nat,
        ),
    ) {
        Some(CandyError::FieldTooLong)
    } else {
        None
    }
}

/// Number of bytes the account of a candy machine made from `data` needs.
pub fn get_space_for_candy(data: &CandyMachineData) -> (r: Result<usize, CandyError>)
    ensures
        required_size(data.items_available as nat, has_table(*data)) <= usize::MAX ==> r == Ok::<usize, CandyError>(
            required_size(data.items_available as nat, has_table(*data)) as usize,
        ),
        required_size(data.items_available as nat, has_table(*data)) > usize::MAX ==> r == Err::<usize, CandyError>(
            CandyError::NumericalOverflowError,
        ),
{
    compute_required_size(data.items_available, table_present(data))
}

/// Whether an account made from `data` holds a table of config lines.
pub fn table_present(data: &CandyMachineData) -> (r: bool)
    ensures
        r == has_table(*data),
{
    let sequel_mint = match &data.comet_mint_settings {
        Some(cms) => cms.sequel_mint,
        None => false,
    };
    match &data.hidden_settings {
        Some(_) => false,
        None => !sequel_mint,
    }
}

/// Whether two public keys are equal.
pub fn cmp_pubkeys(a: &Pubkey, b: &Pubkey) -> (r: bool)
    ensures
        r == (a@ == b@),
{
    let mut k: usize = 0;
    while k < 32
        invariant
            k <= 32,
            a@.len() == 32,
            b@.len() == 32,
            forall|q: int| 0 <= q < k ==> a@[q] == b@[q],
        decreases 32 - k,
    {
        if a[k] != b[k] {
            return false;
        }
        k = k + 1;
    }
    assert(a@ =~= b@);
    true
}

/// `symbol` padded with zero bytes to the stored symbol width.
pub fn pad_symbol(symbol: &Vec<u8>) -> (r: Vec<u8>)
    requires
        symbol@.len() <= SYMBOL_WIDTH,
    ensures
        r@ == pad(symbol@, SYMBOL_WIDTH as nat),
{
    let mut r: Vec<u8> = Vec::new();
    let mut k: usize = 0;
    while k < SYMBOL_WIDTH
        invariant
            k <= SYMBOL_WIDTH,
            symbol@.len() <= SYMBOL_WIDTH,
            r@ == pad(symbol@, SYMBOL_WIDTH as nat).take(k as int),
        decreases SYMBOL_WIDTH - k,
    {
        if k < symbol.len() {
            r.push(symbol[k]);
        } else {
            r.push(0u8);
        }
        k = k + 1;
        assert(r@ =~= pad(symbol@, SYMBOL_WIDTH as nat).take(k as int));
    }
    assert(pad(symbol@, SYMBOL_WIDTH as nat).take(SYMBOL_WIDTH as int) =~= pad(symbol@, SYMBOL_WIDTH as nat));
    r
}

/// A zeroed account of the required size holds a well-formed, empty table.
pub proof fn lemma_zeroed_table_wf(s: Seq<u8>, n: nat)
    requires
        required_size(n, true) <= s.len(),
        forall|p: int| 0 <= p < s.len() ==> s[p] == 0u8,
    ensures
        table_wf(s, n),
        filled_below(s, n, n) == 0,
{
    assert(le_u32(0u8, 0u8, 0u8, 0u8) == 0u32) by (bit_vector);
    assert(stored_count(s) == le_u32(0u8, 0u8, 0u8, 0u8));
    lemma_zeroed_filled_below(s, n, n);
}

proof fn lemma_zeroed_filled_below(s: Seq<u8>, n: nat, k: nat)
    requires
        k <= n,
        required_size(n, true) <= s.len(),
        forall|p: int| 0 <= p < s.len() ==> s[p] == 0u8,
    ensures
        filled_below(s, n, k) == 0,
    decreases k,
{
    if k > 0 {
        lemma_zeroed_filled_below(s, n, (k - 1) as nat);
        let i = (k - 1) as nat;
        crate::layout::lemma_bit_byte_in_bounds(n, i);
        let pos = crate::layout::bit_pos(i) as u8;
        assert((0u8 >> pos) & 1u8 != 1u8) by (bit_vector);
        assert(!slot_bit(s, n, i));
    }
}

/// Creates a candy machine from `data`: checks it, pads its symbol, builds the
/// header, and, when the account holds a table whose lines are generated,
/// writes those lines. Only the account's data changes, and only on success.
pub fn handle_initialize_candy_machine(ctx: &mut InitializeCandyMachine, data: CandyMachineData) -> (r: Result<CandyMachine, CandyError>)
    requires
        required_size(data.items_available as nat, has_table(data)) <= old(ctx).candy_machine@.len(),
        forall|p: int| 0 <= p < old(ctx).candy_machine@.len() ==> old(ctx).candy_machine@[p] == 0u8,
    ensures
        final(ctx).wallet == old(ctx).wallet,
        final(ctx).authority == old(ctx).authority,
        final(ctx).token_mint == old(ctx).token_mint,
        match initialize_error(data, old(ctx).token_mint) {
            Some(e) => r == Err::<CandyMachine, CandyError>(e) && final(ctx).candy_machine@ == old(ctx).candy_machine@,
            None => r is Ok,
        },
        r is Ok ==> {
            let cm = r->Ok_0;
            &&& cm.authority == old(ctx).authority
            &&& cm.wallet == old(ctx).wallet
            &&& cm.token_mint == match old(ctx).token_mint {
                Some(t) => Some(t.mint),
                None => None::<Pubkey>,
            }
            &&& cm.items_redeemed == 0
            &&& cm.data.symbol@ == pad(data.symbol@, SYMBOL_WIDTH as nat)
            &&& cm.data == (CandyMachineData { symbol: cm.data.symbol, ..data })
            &&& if has_table(data) && generates_lines(data) {
                slots_written(
                    old(ctx).candy_machine@,
                    final(ctx).candy_machine@,
                    data.items_available as nat,
                    0,
                    template_lines(
                        data.comet_mint_settings->Some_0.name@,
                        data.comet_mint_settings->Some_0.uri@,
                        data.items_available as nat,
                    ),
                )
            } else {
                final(ctx).candy_machine@ == old(ctx).candy_machine@
            }
            &&& has_table(data) ==> table_wf(final(ctx).candy_machine@, data.items_available as nat)
        },
{
    if data.uuid.len() != 6 {
        return Err(CandyError::UuidMustBeExactly6Length);
    }
    let token_mint: Option<Pubkey> = match &ctx.token_mint {
        Some(t) => {
            if !cmp_pubkeys(&t.wallet_mint, &t.mint) {
                return Err(CandyError::MintMismatch);
            }
            Some(t.mint)
        },
        None => None,
    };
    if data.symbol.len() > SYMBOL_WIDTH {
        return Err(CandyError::FieldTooLong);
    }
    let symbol = pad_symbol(&data.symbol);
    // one creator's place is kept for the candy machine itself
    if data.creators.len() > MAX_CREATORS - 1 {
        return Err(CandyError::TooManyCreators);
    }
    if table_present(&data) {
        proof {
            lemma_zeroed_table_wf(ctx.candy_machine@, data.items_available as nat);
        }
        add_comet_config_lines(&mut ctx.candy_machine, &data)?;
    }
    let mut data = data;
    data.symbol = symbol;
    Ok(CandyMachine {
        authority: ctx.authority,
        wallet: ctx.wallet,
        token_mint,
        items_redeemed: 0,
        data,
    })
}

} // verus!
