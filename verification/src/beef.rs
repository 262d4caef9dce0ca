//! Transactions and scripts from elsewhere, and the layout that decides whether the SDK can read
//! them.
//!
//! A BEEF holds proofs and transactions, one after the other. Each part is told by the position
//! behind it, or by nothing when the bytes do not hold it whole.

use crate::chain::{
    beef_transaction, carries, decode_fields, hexadecimal_notation_is_read, is_script_text, is_whole,
    parse_beef, parse_script, preimage, push_drop_fields, read_hex, script_of_hex, signed_data,
    whole_script, HexReading, ParsedTransaction, TransactionModel,
};
use crate::codec::{hex_encode, hex_text, hex_text_reads_back};
use crate::text::{part_of, result_view, success_view, views};
use vstd::prelude::*;
use vstd::string::*;

verus! {

broadcast use vstd::string::group_string_axioms;

/// How far the SDK's reader comes with a part of a BEEF.
pub enum Reach {
    /// To the position behind the part.
    At(usize),
    /// The bytes end before the part does, or hold a mark that there is not. The reader reports it.
    Ends,
    /// There is what the reader panics on, or takes more memory for than the bytes call for.
    Stops,
}

/// The contents of a `Reach`.
pub enum ReachModel {
    At(int),
    Ends,
    Stops,
}

impl View for Reach {
    type V = ReachModel;

    open spec fn view(&self) -> ReachModel {
        match self {
            Reach::At(q) => ReachModel::At(*q as int),
            Reach::Ends => ReachModel::Ends,
            Reach::Stops => ReachModel::Stops,
        }
    }
}

/// The position behind `n` bytes.
pub open spec fn skipped(s: Seq<u8>, p: int, n: nat) -> ReachModel {
    if p + n <= s.len() {
        ReachModel::At(p + n)
    } else {
        ReachModel::Ends
    }
}

/// The number in `n` bytes, the least significant first.
pub open spec fn little_endian(s: Seq<u8>, p: int, n: nat) -> nat
    decreases n,
{
    if n == 0 {
        0
    } else {
        s[p] as nat + 0x100 * little_endian(s, p + 1, (n - 1) as nat)
    }
}

/// How many bytes a count takes, told by its first.
pub open spec fn count_size(first: u8) -> nat {
    if first < 0xfd {
        1
    } else if first == 0xfd {
        3
    } else if first == 0xfe {
        5
    } else {
        9
    }
}

/// A count, and the position behind it.
pub open spec fn count_at(s: Seq<u8>, p: int) -> Option<(nat, int)> {
    if p + 1 > s.len() || p + count_size(s[p]) > s.len() {
        None
    } else if s[p] < 0xfd {
        Some((s[p] as nat, p + 1))
    } else {
        let size = count_size(s[p]);
        Some((little_endian(s, p + 1, (size - 1) as nat), p + size))
    }
}

/// The position behind a number of parts of one layout.
pub open spec fn behind_all(part: spec_fn(int) -> ReachModel, p: int, count: nat) -> ReachModel
    decreases count,
{
    if count == 0 {
        ReachModel::At(p)
    } else {
        match part(p) {
            ReachModel::At(q) => behind_all(part, q, (count - 1) as nat),
            r => r,
        }
    }
}

/// The position behind counted parts of one layout, of which there are at most `limit`.
pub open spec fn behind_counted(
    s: Seq<u8>,
    part: spec_fn(int) -> ReachModel,
    p: int,
    limit: nat,
) -> ReachModel {
    match count_at(s, p) {
        None => ReachModel::Ends,
        Some((count, q)) => if count > limit {
            ReachModel::Stops
        } else {
            behind_all(part, q, count)
        },
    }
}

/// How many inputs or outputs a transaction can have. The reader makes room for all of them at
/// once, before it reads the first.
pub open spec fn room(s: Seq<u8>) -> nat {
    if s.len() <= MOST_PARTS {
        s.len()
    } else {
        MOST_PARTS as nat
    }
}

/// The most inputs or outputs that room is made for.
pub const MOST_PARTS: u64 = 0xff_ffff;

/// The greatest number that every machine can count up to.
pub const GREATEST_COUNT: u64 = 0xffff_ffff;

/// The position behind a script with its length before it. The script can be read to its end.
pub open spec fn script_end(s: Seq<u8>, p: int) -> ReachModel {
    match count_at(s, p) {
        None => ReachModel::Ends,
        Some((len, q)) => if len > s.len() {
            ReachModel::Stops
        } else if q + len > s.len() {
            ReachModel::Ends
        } else if is_whole(s.subrange(q, q + len)) {
            ReachModel::At(q + len)
        } else {
            ReachModel::Stops
        },
    }
}

/// The position behind an input: an outpoint, a script and a sequence number.
pub open spec fn input_end(s: Seq<u8>, p: int) -> ReachModel {
    match skipped(s, p, 36) {
        ReachModel::At(q) => match script_end(s, q) {
            ReachModel::At(q) => skipped(s, q, 4),
            r => r,
        },
        r => r,
    }
}

/// The position behind an output: an amount and a script.
pub open spec fn output_end(s: Seq<u8>, p: int) -> ReachModel {
    match skipped(s, p, 8) {
        ReachModel::At(q) => script_end(s, q),
        r => r,
    }
}

/// The position behind a transaction: a version, the inputs, the outputs and a lock time.
pub open spec fn transaction_end(s: Seq<u8>, p: int) -> ReachModel {
    match skipped(s, p, 4) {
        ReachModel::At(q) => match behind_counted(s, |i: int| input_end(s, i), q, room(s)) {
            ReachModel::At(q) => match behind_counted(s, |i: int| output_end(s, i), q, room(s)) {
                ReachModel::At(q) => skipped(s, q, 4),
                r => r,
            },
            r => r,
        },
        r => r,
    }
}

/// The position behind a node of a proof: an offset, flags, and a hash unless the flags say that
/// there is none.
pub open spec fn leaf_end(s: Seq<u8>, p: int) -> ReachModel {
    match count_at(s, p) {
        None => ReachModel::Ends,
        Some((_, q)) => if q + 1 > s.len() {
            ReachModel::Ends
        } else if s[q] % 2 == 1 {
            ReachModel::At(q + 1)
        } else {
            skipped(s, q + 1, 32)
        },
    }
}

/// The position behind a level of a proof.
pub open spec fn level_end(s: Seq<u8>, p: int) -> ReachModel {
    match count_at(s, p) {
        None => ReachModel::Ends,
        Some((count, q)) => behind_all(|i: int| leaf_end(s, i), q, count),
    }
}

/// The position behind a proof: a block height, a tree height and as many levels. The tree has at
/// least one level, and no more than an offset has bits.
pub open spec fn proof_end(s: Seq<u8>, p: int) -> ReachModel {
    match count_at(s, p) {
        None => ReachModel::Ends,
        Some((_, q)) => if q + 1 > s.len() {
            ReachModel::Ends
        } else if s[q] == 0 || s[q] > 64 {
            ReachModel::Stops
        } else {
            behind_all(|i: int| level_end(s, i), q + 1, s[q] as nat)
        },
    }
}

/// The position behind the place of a proof among the proofs.
pub open spec fn place_end(s: Seq<u8>, p: int) -> ReachModel {
    match count_at(s, p) {
        None => ReachModel::Ends,
        Some((place, q)) => if place > GREATEST_COUNT {
            ReachModel::Stops
        } else {
            ReachModel::At(q)
        },
    }
}

/// The position behind an entry of the first version: a transaction, whether it has a proof, and
/// which.
pub open spec fn first_entry_end(s: Seq<u8>, p: int) -> ReachModel {
    match transaction_end(s, p) {
        ReachModel::At(q) => if q + 1 > s.len() {
            ReachModel::Ends
        } else if s[q] == 0 {
            ReachModel::At(q + 1)
        } else {
            place_end(s, q + 1)
        },
        r => r,
    }
}

/// The position behind an entry of the second version: a format, and then a transaction, the
/// proof and a transaction, or the identifier of a transaction.
pub open spec fn second_entry_end(s: Seq<u8>, p: int) -> ReachModel {
    if p + 1 > s.len() {
        ReachModel::Ends
    } else if s[p] == 0 {
        transaction_end(s, p + 1)
    } else if s[p] == 1 {
        match place_end(s, p + 1) {
            ReachModel::At(q) => transaction_end(s, q),
            r => r,
        }
    } else if s[p] == 2 {
        skipped(s, p + 1, 32)
    } else {
        ReachModel::Ends
    }
}

/// The four bytes that a BEEF of the first version starts with.
pub open spec fn first_version() -> Seq<u8> {
    seq![0x01, 0x00, 0xbe, 0xef]
}

/// The four bytes that a BEEF of the second version starts with.
pub open spec fn second_version() -> Seq<u8> {
    seq![0x02, 0x00, 0xbe, 0xef]
}

/// The four bytes that stand before a BEEF about one transaction.
pub open spec fn atomic_version() -> Seq<u8> {
    seq![0x01, 0x01, 0x01, 0x01]
}

/// Whether bytes stand at a position.
pub open spec fn stands_at(s: Seq<u8>, p: int, part: Seq<u8>) -> bool {
    p + part.len() <= s.len() && s.subrange(p, p + part.len()) == part
}

/// The position behind the proofs.
#[verifier::opaque]
pub open spec fn proofs_end(s: Seq<u8>, p: int) -> ReachModel {
    behind_counted(s, |i: int| proof_end(s, i), p, GREATEST_COUNT as nat)
}

/// The position behind the entries of the first version.
#[verifier::opaque]
pub open spec fn first_entries_end(s: Seq<u8>, p: int) -> ReachModel {
    behind_counted(s, |i: int| first_entry_end(s, i), p, GREATEST_COUNT as nat)
}

/// The position behind the entries of the second version.
#[verifier::opaque]
pub open spec fn second_entries_end(s: Seq<u8>, p: int) -> ReachModel {
    behind_counted(s, |i: int| second_entry_end(s, i), p, GREATEST_COUNT as nat)
}

/// The position behind the proofs and the entries of a BEEF, and the version before them.
pub open spec fn bundle_end(s: Seq<u8>, p: int) -> ReachModel {
    if stands_at(s, p, first_version()) || stands_at(s, p, second_version()) {
        match proofs_end(s, p + 4) {
            ReachModel::At(q) => if stands_at(s, p, first_version()) {
                first_entries_end(s, q)
            } else {
                second_entries_end(s, q)
            },
            r => r,
        }
    } else {
        ReachModel::Ends
    }
}

/// The position behind a BEEF.
pub open spec fn beef_end(s: Seq<u8>) -> ReachModel {
    if stands_at(s, 0, atomic_version()) {
        bundle_end(s, 36)
    } else {
        bundle_end(s, 0)
    }
}

/// Whether bytes start with a whole BEEF.
pub open spec fn is_beef(s: Seq<u8>) -> bool {
    beef_end(s) is At
}

fn skip(s: &Vec<u8>, p: usize, n: usize) -> (r: Reach)
    requires
        p <= s@.len(),
    ensures
        r@ == skipped(s@, p as int, n as nat),
        r matches Reach::At(q) ==> p <= q <= s@.len(),
{
    if n <= s.len() - p {
        Reach::At(p + n)
    } else {
        Reach::Ends
    }
}

fn read_count(s: &Vec<u8>, p: usize) -> (r: Option<(u64, usize)>)
    requires
        p <= s@.len(),
    ensures
        match r {
            Some((n, q)) => count_at(s@, p as int) == Some((n as nat, q as int)) && p < q
                <= s@.len(),
            None => count_at(s@, p as int) is None,
        },
{
    let left: usize = s.len() - p;
    if left < 1 {
        return None;
    }
    let first: u8 = s[p];
    if first < 0xfd {
        return Some((first as u64, p + 1));
    }
    reveal_with_fuel(little_endian, 9);
    if first == 0xfd {
        if left < 3 {
            return None;
        }
        let n: u64 = s[p + 1] as u64 + 0x100 * s[p + 2] as u64;
        return Some((n, p + 3));
    }
    if first == 0xfe {
        if left < 5 {
            return None;
        }
        let n: u64 = s[p + 1] as u64 + 0x100 * s[p + 2] as u64 + 0x1_0000 * s[p + 3] as u64
            + 0x100_0000 * s[p + 4] as u64;
        return Some((n, p + 5));
    }
    if left < 9 {
        return None;
    }
    let low: u64 = s[p + 1] as u64 + 0x100 * s[p + 2] as u64 + 0x1_0000 * s[p + 3] as u64
        + 0x100_0000 * s[p + 4] as u64;
    let high: u64 = s[p + 5] as u64 + 0x100 * s[p + 6] as u64 + 0x1_0000 * s[p + 7] as u64
        + 0x100_0000 * s[p + 8] as u64;
    let n: u64 = low + 0x1_0000_0000 * high;
    Some((n, p + 9))
}

fn skip_script(s: &Vec<u8>, p: usize) -> (r: Reach)
    requires
        p <= s@.len(),
    ensures
        r@ == script_end(s@, p as int),
        r matches Reach::At(q) ==> p < q <= s@.len(),
{
    match read_count(s, p) {
        None => Reach::Ends,
        Some((len, q)) => {
            if len > s.len() as u64 {
                return Reach::Stops;
            }
            if len > (s.len() - q) as u64 {
                return Reach::Ends;
            }
            let end: usize = q + len as usize;
            if whole_script(&part_of(s, q, end)) {
                Reach::At(end)
            } else {
                Reach::Stops
            }
        },
    }
}

fn skip_input(s: &Vec<u8>, p: usize) -> (r: Reach)
    requires
        p <= s@.len(),
    ensures
        r@ == input_end(s@, p as int),
        r matches Reach::At(q) ==> p < q <= s@.len(),
{
    match skip(s, p, 36) {
        Reach::At(q) => match skip_script(s, q) {
            Reach::At(q) => skip(s, q, 4),
            r => r,
        },
        r => r,
    }
}

fn skip_output(s: &Vec<u8>, p: usize) -> (r: Reach)
    requires
        p <= s@.len(),
    ensures
        r@ == output_end(s@, p as int),
        r matches Reach::At(q) ==> p < q <= s@.len(),
{
    match skip(s, p, 8) {
        Reach::At(q) => skip_script(s, q),
        r => r,
    }
}

fn most_parts(s: &Vec<u8>) -> (r: u64)
    ensures
        r == room(s@),
{
    if s.len() as u64 <= MOST_PARTS {
        s.len() as u64
    } else {
        MOST_PARTS
    }
}

fn skip_inputs(s: &Vec<u8>, p: usize) -> (r: Reach)
    requires
        p <= s@.len(),
    ensures
        r@ == behind_counted(s@, |i: int| input_end(s@, i), p as int, room(s@)),
        r matches Reach::At(q) ==> p < q <= s@.len(),
{
    let ghost part = |i: int| input_end(s@, i);
    let (count, start): (u64, usize) = match read_count(s, p) {
        None => {
            return Reach::Ends;
        },
        Some(x) => x,
    };
    if count > most_parts(s) {
        return Reach::Stops;
    }
    let mut left: u64 = count;
    let mut q: usize = start;
    while left > 0
        invariant
            p < start <= q <= s@.len(),
            count_at(s@, p as int) == Some((count as nat, start as int)),
            count <= room(s@),
            part == (|i: int| input_end(s@, i)),
            behind_all(part, start as int, count as nat) == behind_all(part, q as int, left as nat),
        decreases left,
    {
        match skip_input(s, q) {
            Reach::At(next) => {
                q = next;
            },
            r => {
                return r;
            },
        }
        left = left - 1;
    }
    Reach::At(q)
}

fn skip_outputs(s: &Vec<u8>, p: usize) -> (r: Reach)
    requires
        p <= s@.len(),
    ensures
        r@ == behind_counted(s@, |i: int| output_end(s@, i), p as int, room(s@)),
        r matches Reach::At(q) ==> p < q <= s@.len(),
{
    let ghost part = |i: int| output_end(s@, i);
    let (count, start): (u64, usize) = match read_count(s, p) {
        None => {
            return Reach::Ends;
        },
        Some(x) => x,
    };
    if count > most_parts(s) {
        return Reach::Stops;
    }
    let mut left: u64 = count;
    let mut q: usize = start;
    while left > 0
        invariant
            p < start <= q <= s@.len(),
            count_at(s@, p as int) == Some((count as nat, start as int)),
            count <= room(s@),
            part == (|i: int| output_end(s@, i)),
            behind_all(part, start as int, count as nat) == behind_all(part, q as int, left as nat),
        decreases left,
    {
        match skip_output(s, q) {
            Reach::At(next) => {
                q = next;
            },
            r => {
                return r;
            },
        }
        left = left - 1;
    }
    Reach::At(q)
}

fn skip_transaction(s: &Vec<u8>, p: usize) -> (r: Reach)
    requires
        p <= s@.len(),
    ensures
        r@ == transaction_end(s@, p as int),
        r matches Reach::At(q) ==> p < q <= s@.len(),
{
    match skip(s, p, 4) {
        Reach::At(q) => match skip_inputs(s, q) {
            Reach::At(q) => match skip_outputs(s, q) {
                Reach::At(q) => skip(s, q, 4),
                r => r,
            },
            r => r,
        },
        r => r,
    }
}

fn skip_leaf(s: &Vec<u8>, p: usize) -> (r: Reach)
    requires
        p <= s@.len(),
    ensures
        r@ == leaf_end(s@, p as int),
        r matches Reach::At(q) ==> p < q <= s@.len(),
{
    match read_count(s, p) {
        None => Reach::Ends,
        Some((_, q)) => if q >= s.len() {
            Reach::Ends
        } else if s[q] % 2 == 1 {
            Reach::At(q + 1)
        } else {
            skip(s, q + 1, 32)
        },
    }
}

fn skip_level(s: &Vec<u8>, p: usize) -> (r: Reach)
    requires
        p <= s@.len(),
    ensures
        r@ == level_end(s@, p as int),
        r matches Reach::At(q) ==> p < q <= s@.len(),
{
    let ghost part = |i: int| leaf_end(s@, i);
    let (count, start): (u64, usize) = match read_count(s, p) {
        None => {
            return Reach::Ends;
        },
        Some(x) => x,
    };
    let mut left: u64 = count;
    let mut q: usize = start;
    while left > 0
        invariant
            p < start <= q <= s@.len(),
            count_at(s@, p as int) == Some((count as nat, start as int)),
            part == (|i: int| leaf_end(s@, i)),
            behind_all(part, start as int, count as nat) == behind_all(part, q as int, left as nat),
        decreases left,
    {
        match skip_leaf(s, q) {
            Reach::At(next) => {
                q = next;
            },
            r => {
                return r;
            },
        }
        left = left - 1;
    }
    Reach::At(q)
}

fn skip_proof(s: &Vec<u8>, p: usize) -> (r: Reach)
    requires
        p <= s@.len(),
    ensures
        r@ == proof_end(s@, p as int),
        r matches Reach::At(q) ==> p < q <= s@.len(),
{
    let ghost part = |i: int| level_end(s@, i);
    let start: usize = match read_count(s, p) {
        None => {
            return Reach::Ends;
        },
        Some((_, q)) => q,
    };
    if start >= s.len() {
        return Reach::Ends;
    }
    if s[start] == 0 || s[start] > 64 {
        return Reach::Stops;
    }
    let count: u8 = s[start];
    let mut left: u8 = count;
    let mut q: usize = start + 1;
    while left > 0
        invariant
            p < start < q <= s@.len(),
            part == (|i: int| level_end(s@, i)),
            proof_end(s@, p as int) == behind_all(part, start + 1, count as nat),
            behind_all(part, start + 1, count as nat) == behind_all(part, q as int, left as nat),
        decreases left,
    {
        match skip_level(s, q) {
            Reach::At(next) => {
                q = next;
            },
            r => {
                return r;
            },
        }
        left = left - 1;
    }
    Reach::At(q)
}

fn skip_place(s: &Vec<u8>, p: usize) -> (r: Reach)
    requires
        p <= s@.len(),
    ensures
        r@ == place_end(s@, p as int),
        r matches Reach::At(q) ==> p < q <= s@.len(),
{
    match read_count(s, p) {
        None => Reach::Ends,
        Some((place, q)) => if place > GREATEST_COUNT {
            Reach::Stops
        } else {
            Reach::At(q)
        },
    }
}

fn skip_first_entry(s: &Vec<u8>, p: usize) -> (r: Reach)
    requires
        p <= s@.len(),
    ensures
        r@ == first_entry_end(s@, p as int),
        r matches Reach::At(q) ==> p < q <= s@.len(),
{
    match skip_transaction(s, p) {
        Reach::At(q) => if q >= s.len() {
            Reach::Ends
        } else if s[q] == 0 {
            Reach::At(q + 1)
        } else {
            skip_place(s, q + 1)
        },
        r => r,
    }
}

fn skip_second_entry(s: &Vec<u8>, p: usize) -> (r: Reach)
    requires
        p <= s@.len(),
    ensures
        r@ == second_entry_end(s@, p as int),
        r matches Reach::At(q) ==> p < q <= s@.len(),
{
    if p >= s.len() {
        Reach::Ends
    } else if s[p] == 0 {
        skip_transaction(s, p + 1)
    } else if s[p] == 1 {
        match skip_place(s, p + 1) {
            Reach::At(q) => skip_transaction(s, q),
            r => r,
        }
    } else if s[p] == 2 {
        skip(s, p + 1, 32)
    } else {
        Reach::Ends
    }
}

fn skip_proofs(s: &Vec<u8>, p: usize) -> (r: Reach)
    requires
        p <= s@.len(),
    ensures
        r@ == proofs_end(s@, p as int),
        r matches Reach::At(q) ==> p < q <= s@.len(),
{
    reveal(proofs_end);
    let ghost part = |i: int| proof_end(s@, i);
    let (count, start): (u64, usize) = match read_count(s, p) {
        None => {
            return Reach::Ends;
        },
        Some(x) => x,
    };
    if count > GREATEST_COUNT {
        return Reach::Stops;
    }
    let mut left: u64 = count;
    let mut q: usize = start;
    while left > 0
        invariant
            p < start <= q <= s@.len(),
            count_at(s@, p as int) == Some((count as nat, start as int)),
            count <= GREATEST_COUNT as nat,
            part == (|i: int| proof_end(s@, i)),
            proofs_end(s@, p as int) == behind_all(part, start as int, count as nat),
            behind_all(part, start as int, count as nat) == behind_all(part, q as int, left as nat),
        decreases left,
    {
        match skip_proof(s, q) {
            Reach::At(next) => {
                q = next;
            },
            r => {
                return r;
            },
        }
        left = left - 1;
    }
    Reach::At(q)
}

fn skip_first_entries(s: &Vec<u8>, p: usize) -> (r: Reach)
    requires
        p <= s@.len(),
    ensures
        r@ == first_entries_end(s@, p as int),
        r matches Reach::At(q) ==> p < q <= s@.len(),
{
    reveal(first_entries_end);
    let ghost part = |i: int| first_entry_end(s@, i);
    let (count, start): (u64, usize) = match read_count(s, p) {
        None => {
            return Reach::Ends;
        },
        Some(x) => x,
    };
    if count > GREATEST_COUNT {
        return Reach::Stops;
    }
    let mut left: u64 = count;
    let mut q: usize = start;
    while left > 0
        invariant
            p < start <= q <= s@.len(),
            count_at(s@, p as int) == Some((count as nat, start as int)),
            count <= GREATEST_COUNT as nat,
            part == (|i: int| first_entry_end(s@, i)),
            first_entries_end(s@, p as int) == behind_all(part, start as int, count as nat),
            behind_all(part, start as int, count as nat) == behind_all(part, q as int, left as nat),
        decreases left,
    {
        match skip_first_entry(s, q) {
            Reach::At(next) => {
                q = next;
            },
            r => {
                return r;
            },
        }
        left = left - 1;
    }
    Reach::At(q)
}

fn skip_second_entries(s: &Vec<u8>, p: usize) -> (r: Reach)
    requires
        p <= s@.len(),
    ensures
        r@ == second_entries_end(s@, p as int),
        r matches Reach::At(q) ==> p < q <= s@.len(),
{
    reveal(second_entries_end);
    let ghost part = |i: int| second_entry_end(s@, i);
    let (count, start): (u64, usize) = match read_count(s, p) {
        None => {
            return Reach::Ends;
        },
        Some(x) => x,
    };
    if count > GREATEST_COUNT {
        return Reach::Stops;
    }
    let mut left: u64 = count;
    let mut q: usize = start;
    while left > 0
        invariant
            p < start <= q <= s@.len(),
            count_at(s@, p as int) == Some((count as nat, start as int)),
            count <= GREATEST_COUNT as nat,
            part == (|i: int| second_entry_end(s@, i)),
            second_entries_end(s@, p as int) == behind_all(part, start as int, count as nat),
            behind_all(part, start as int, count as nat) == behind_all(part, q as int, left as nat),
        decreases left,
    {
        match skip_second_entry(s, q) {
            Reach::At(next) => {
                q = next;
            },
            r => {
                return r;
            },
        }
        left = left - 1;
    }
    Reach::At(q)
}

fn has_at(s: &Vec<u8>, p: usize, a: u8, b: u8, c: u8, d: u8) -> (r: bool)
    requires
        p <= s@.len(),
    ensures
        r == stands_at(s@, p as int, seq![a, b, c, d]),
        r ==> p + 4 <= s@.len() <= usize::MAX,
{
    if s.len() - p < 4 {
        return false;
    }
    let r = s[p] == a && s[p + 1] == b && s[p + 2] == c && s[p + 3] == d;
    proof {
        let part = s@.subrange(p as int, p + 4);
        assert(part[0] == s@[p as int] && part[1] == s@[p + 1] && part[2] == s@[p + 2] && part[3]
            == s@[p + 3]);
        if r {
            assert(part =~= seq![a, b, c, d]);
        }
    }
    r
}

fn skip_bundle(s: &Vec<u8>, p: usize) -> (r: Reach)
    requires
        p <= s@.len(),
    ensures
        r@ == bundle_end(s@, p as int),
{
    let first = has_at(s, p, 0x01, 0x00, 0xbe, 0xef);
    let second = has_at(s, p, 0x02, 0x00, 0xbe, 0xef);
    if !first && !second {
        return Reach::Ends;
    }
    match skip_proofs(s, p + 4) {
        Reach::At(q) => if first {
            skip_first_entries(s, q)
        } else {
            skip_second_entries(s, q)
        },
        r => r,
    }
}

/// How far the SDK's reader comes with a BEEF.
pub fn reach_of_beef(s: &Vec<u8>) -> (r: Reach)
    ensures
        r@ == beef_end(s@),
{
    if !has_at(s, 0, 0x01, 0x01, 0x01, 0x01) {
        skip_bundle(s, 0)
    } else if s.len() < 36 {
        assert(!stands_at(s@, 36, first_version()) && !stands_at(s@, 36, second_version()));
        Reach::Ends
    } else {
        skip_bundle(s, 36)
    }
}

/// Whether bytes start with a whole BEEF.
pub fn has_beef(s: &Vec<u8>) -> (r: bool)
    ensures
        r == is_beef(s@),
{
    match reach_of_beef(s) {
        Reach::At(_) => true,
        _ => false,
    }
}

/// The transaction that a BEEF is about: none when it cannot be read.
pub open spec fn transaction_of(beef: Seq<u8>) -> Option<TransactionModel> {
    if is_beef(beef) {
        beef_transaction(hex_text(beef))
    } else {
        None
    }
}

/// The transaction that a BEEF is about. The message of an error is left open: that of the SDK can
/// list numbers in an order that differs from one process to the next.
pub fn read_transaction(beef: &Vec<u8>) -> (r: Result<ParsedTransaction, String>)
    ensures
        success_view(r) == transaction_of(beef@),
{
    match reach_of_beef(beef) {
        Reach::Stops => Err("malformed BEEF".to_owned()),
        _ => {
            let text = hex_encode(beef.as_slice());
            proof {
                hex_text_reads_back(beef@);
            }
            parse_beef(text.as_str())
        },
    }
}

/// The script that a hexadecimal text stands for, as bytes, or the message of the error.
pub open spec fn script_text(text: Seq<char>) -> Result<Seq<u8>, Seq<char>> {
    if is_script_text(text) {
        script_of_hex(text)
    } else {
        Err("malformed script"@)
    }
}

/// The script that a hexadecimal text stands for, as bytes.
pub fn read_script(text: &str) -> (r: Result<Vec<u8>, String>)
    ensures
        result_view(r) == script_text(text@),
{
    let readable = match read_hex(text) {
        HexReading::Bytes(script) => whole_script(&script),
        HexReading::Refused => true,
        HexReading::Cut => false,
    };
    if readable {
        parse_script(text)
    } else {
        Err("malformed script".to_owned())
    }
}

/// What is signed to spend the output under `script` by the first input of the transaction that a
/// BEEF is about: nothing when either cannot be read.
pub open spec fn spending_data(
    beef: Seq<u8>,
    scope: u32,
    satoshis: u64,
    script: Seq<u8>,
) -> Option<Seq<u8>> {
    if is_beef(beef) && is_whole(script) {
        signed_data(hex_text(beef), 0, scope, satoshis, script)
    } else {
        None
    }
}

/// What is signed to spend the output under `script` by the first input of the transaction that a
/// BEEF is about. The message of an error is left open, as that of `read_transaction`.
pub fn read_spending_data(beef: &Vec<u8>, scope: u32, satoshis: u64, script: &Vec<u8>) -> (r:
    Result<Vec<u8>, String>)
    ensures
        success_view(r) == spending_data(beef@, scope, satoshis, script@),
{
    if !whole_script(script) {
        return Err("malformed script".to_owned());
    }
    match reach_of_beef(beef) {
        Reach::Stops => Err("malformed BEEF".to_owned()),
        _ => {
            let text = hex_encode(beef.as_slice());
            proof {
                hex_text_reads_back(beef@);
            }
            preimage(text.as_str(), 0, scope, satoshis, script)
        },
    }
}

/// The data fields of a script, or the message of the error.
pub open spec fn fields_of(script: Seq<u8>) -> Result<Seq<Seq<u8>>, Seq<char>> {
    if is_whole(script) {
        push_drop_fields(script)
    } else {
        Err("malformed script"@)
    }
}

/// The data fields of a script.
pub fn read_fields(script: &Vec<u8>) -> (r: Result<Vec<Vec<u8>>, String>)
    ensures
        match r {
            Ok(fields) => fields_of(script@) == Ok::<_, Seq<char>>(views(fields@)),
            Err(e) => fields_of(script@) == Err::<Seq<Seq<u8>>, _>(e@),
        },
        is_whole(script@) ==> forall|fields: Seq<Seq<u8>>| #[trigger]
            carries(script@, fields) ==> r is Ok && views(r->Ok_0@) == fields,
{
    if whole_script(script) {
        decode_fields(script)
    } else {
        Err("malformed script".to_owned())
    }
}

// ---------------------------------------------------------------------------------------------
// Writing
// ---------------------------------------------------------------------------------------------

/// How many numbers some bytes can tell.
pub open spec fn numbers_in(n: nat) -> nat
    decreases n,
{
    if n == 0 {
        1
    } else {
        0x100 * numbers_in((n - 1) as nat)
    }
}

/// A number in `n` bytes, the least significant first.
pub open spec fn number_bytes(x: nat, n: nat) -> Seq<u8>
    decreases n,
{
    if n == 0 {
        Seq::empty()
    } else {
        seq![(x % 0x100) as u8] + number_bytes(x / 0x100, (n - 1) as nat)
    }
}

/// A count as it is written: in as few bytes as tell it.
pub open spec fn count_bytes(x: nat) -> Seq<u8> {
    if x < 0xfd {
        seq![x as u8]
    } else if x < 0x1_0000 {
        seq![0xfdu8] + number_bytes(x, 2)
    } else if x < 0x1_0000_0000 {
        seq![0xfeu8] + number_bytes(x, 4)
    } else {
        seq![0xffu8] + number_bytes(x, 8)
    }
}

/// Parts one behind the other.
pub open spec fn in_a_row(parts: Seq<Seq<u8>>) -> Seq<u8>
    decreases parts.len(),
{
    if parts.len() == 0 {
        Seq::empty()
    } else {
        parts[0] + in_a_row(parts.skip(1))
    }
}

/// Parts with their number before them.
pub open spec fn counted(parts: Seq<Seq<u8>>) -> Seq<u8> {
    count_bytes(parts.len()) + in_a_row(parts)
}

/// A script with its length before it.
pub open spec fn script_bytes(script: Seq<u8>) -> Seq<u8> {
    count_bytes(script.len()) + script
}

/// An input as it is written.
pub open spec fn input_bytes(outpoint: Seq<u8>, script: Seq<u8>, sequence: Seq<u8>) -> Seq<u8> {
    (outpoint + script_bytes(script)) + sequence
}

/// An output as it is written.
pub open spec fn output_bytes(amount: Seq<u8>, script: Seq<u8>) -> Seq<u8> {
    amount + script_bytes(script)
}

/// Whether bytes are the writing of an input: the output that is spent, a script that can be read,
/// and a sequence number.
pub open spec fn is_input(b: Seq<u8>) -> bool {
    exists|outpoint: Seq<u8>, script: Seq<u8>, sequence: Seq<u8>|
        outpoint.len() == 36 && is_whole(script) && sequence.len() == 4 && b == #[trigger] input_bytes(
            outpoint,
            script,
            sequence,
        )
}

/// Whether bytes are the writing of an output: an amount and a script that can be read.
pub open spec fn is_output(b: Seq<u8>) -> bool {
    exists|amount: Seq<u8>, script: Seq<u8>|
        amount.len() == 8 && is_whole(script) && b == #[trigger] output_bytes(amount, script)
}

/// Whether parts are all of a kind, and not too many to make room for.
pub open spec fn are_all(parts: Seq<Seq<u8>>, kind: spec_fn(Seq<u8>) -> bool) -> bool {
    parts.len() <= MOST_PARTS && forall|i: int| 0 <= i < parts.len() ==> kind(#[trigger] parts[i])
}

/// A transaction as it is written.
pub open spec fn transaction_bytes(
    version: Seq<u8>,
    inputs: Seq<Seq<u8>>,
    outputs: Seq<Seq<u8>>,
    lock_time: Seq<u8>,
) -> Seq<u8> {
    version + (counted(inputs) + (counted(outputs) + lock_time))
}

/// Whether bytes are the writing of a transaction: a version, inputs, outputs and a lock time.
pub open spec fn is_transaction(b: Seq<u8>) -> bool {
    exists|version: Seq<u8>, inputs: Seq<Seq<u8>>, outputs: Seq<Seq<u8>>, lock_time: Seq<u8>|
        version.len() == 4 && are_all(inputs, |x: Seq<u8>| is_input(x)) && are_all(
            outputs,
            |x: Seq<u8>| is_output(x),
        ) && lock_time.len() == 4 && b == #[trigger] transaction_bytes(
            version,
            inputs,
            outputs,
            lock_time,
        )
}

proof fn parts_stand_apart(s: Seq<u8>, p: int, a: Seq<u8>, b: Seq<u8>)
    requires
        0 <= p,
        stands_at(s, p, a + b),
    ensures
        stands_at(s, p, a),
        stands_at(s, p + a.len(), b),
{
    let whole = s.subrange(p, p + (a + b).len());
    assert(s.subrange(p, p + a.len()) =~= whole.take(a.len() as int));
    assert(whole.take(a.len() as int) =~= a);
    assert(s.subrange(p + a.len(), p + a.len() + b.len()) =~= whole.skip(a.len() as int));
    assert(whole.skip(a.len() as int) =~= b);
}

proof fn bytes_stand_at(s: Seq<u8>, p: int, part: Seq<u8>, i: int)
    requires
        0 <= p,
        stands_at(s, p, part),
        0 <= i < part.len(),
    ensures
        s[p + i] == part[i],
{
    assert(s.subrange(p, p + part.len())[i] == s[p + i]);
}

proof fn numbers_are_read(s: Seq<u8>, p: int, x: nat, n: nat)
    requires
        0 <= p,
        x < numbers_in(n),
        stands_at(s, p, number_bytes(x, n)),
    ensures
        number_bytes(x, n).len() == n,
        little_endian(s, p, n) == x,
    decreases n,
{
    if n > 0 {
        let low = seq![(x % 0x100) as u8];
        let rest = number_bytes(x / 0x100, (n - 1) as nat);
        parts_stand_apart(s, p, low, rest);
        bytes_stand_at(s, p, low, 0);
        numbers_are_read(s, p + 1, x / 0x100, (n - 1) as nat);
    }
}

/// A count that is written is read as itself, in its one, three, five or nine bytes.
pub proof fn counts_are_read(s: Seq<u8>, p: int, x: nat)
    requires
        0 <= p,
        x <= u64::MAX,
        stands_at(s, p, count_bytes(x)),
    ensures
        count_at(s, p) == Some((x, p + count_bytes(x).len())),
        count_bytes(x).len() > 0,
{
    reveal_with_fuel(numbers_in, 9);
    if x < 0xfd {
        bytes_stand_at(s, p, count_bytes(x), 0);
    } else {
        let (mark, n): (u8, nat) = if x < 0x1_0000 {
            (0xfd, 2)
        } else if x < 0x1_0000_0000 {
            (0xfe, 4)
        } else {
            (0xff, 8)
        };
        parts_stand_apart(s, p, seq![mark], number_bytes(x, n));
        bytes_stand_at(s, p, seq![mark], 0);
        assert(numbers_in(2) == 0x1_0000);
        assert(numbers_in(4) == 0x1_0000_0000);
        assert(numbers_in(8) == 0x1_0000_0000_0000_0000);
        numbers_are_read(s, p + 1, x, n);
    }
}

proof fn rows_are_passed(
    s: Seq<u8>,
    part: spec_fn(int) -> ReachModel,
    p: int,
    parts: Seq<Seq<u8>>,
)
    requires
        0 <= p,
        stands_at(s, p, in_a_row(parts)),
        forall|i: int, q: int|
            0 <= i < parts.len() && 0 <= q && #[trigger] stands_at(s, q, parts[i]) ==> part(q)
                == ReachModel::At(q + parts[i].len()),
    ensures
        behind_all(part, p, parts.len()) == ReachModel::At(p + in_a_row(parts).len()),
    decreases parts.len(),
{
    if parts.len() > 0 {
        let rest = parts.skip(1);
        parts_stand_apart(s, p, parts[0], in_a_row(rest));
        assert(stands_at(s, p, parts[0]));
        assert forall|i: int, q: int|
            0 <= i < rest.len() && 0 <= q && #[trigger] stands_at(s, q, rest[i]) implies part(q)
            == ReachModel::At(q + rest[i].len()) by {
            assert(rest[i] == parts[i + 1]);
            assert(stands_at(s, q, parts[i + 1]));
        }
        rows_are_passed(s, part, p + parts[0].len(), rest);
    }
}

proof fn rows_are_long(parts: Seq<Seq<u8>>)
    requires
        forall|i: int| 0 <= i < parts.len() ==> (#[trigger] parts[i]).len() > 0,
    ensures
        in_a_row(parts).len() >= parts.len(),
    decreases parts.len(),
{
    if parts.len() > 0 {
        let rest = parts.skip(1);
        assert(parts[0].len() > 0);
        assert forall|i: int| 0 <= i < rest.len() implies (#[trigger] rest[i]).len() > 0 by {
            assert(rest[i] == parts[i + 1]);
        }
        rows_are_long(rest);
    }
}

proof fn counted_parts_are_passed(
    s: Seq<u8>,
    part: spec_fn(int) -> ReachModel,
    p: int,
    parts: Seq<Seq<u8>>,
    limit: nat,
)
    requires
        0 <= p,
        parts.len() <= limit <= u64::MAX,
        stands_at(s, p, counted(parts)),
        forall|i: int, q: int|
            0 <= i < parts.len() && 0 <= q && #[trigger] stands_at(s, q, parts[i]) ==> part(q)
                == ReachModel::At(q + parts[i].len()),
    ensures
        behind_counted(s, part, p, limit) == ReachModel::At(p + counted(parts).len()),
{
    parts_stand_apart(s, p, count_bytes(parts.len()), in_a_row(parts));
    counts_are_read(s, p, parts.len());
    rows_are_passed(s, part, p + count_bytes(parts.len()).len(), parts);
}

proof fn scripts_are_passed(s: Seq<u8>, p: int, script: Seq<u8>)
    requires
        0 <= p,
        is_whole(script),
        stands_at(s, p, script_bytes(script)),
    ensures
        script_end(s, p) == ReachModel::At(p + script_bytes(script).len()),
        script_bytes(script).len() > 0,
{
    parts_stand_apart(s, p, count_bytes(script.len()), script);
    counts_are_read(s, p, script.len());
}

proof fn inputs_are_passed(s: Seq<u8>, p: int, b: Seq<u8>)
    requires
        0 <= p,
        is_input(b),
        stands_at(s, p, b),
    ensures
        input_end(s, p) == ReachModel::At(p + b.len()),
        b.len() > 0,
{
    let (outpoint, script, sequence): (Seq<u8>, Seq<u8>, Seq<u8>) = choose|
        outpoint: Seq<u8>,
        script: Seq<u8>,
        sequence: Seq<u8>,
    |
        outpoint.len() == 36 && is_whole(script) && sequence.len() == 4 && b == #[trigger] input_bytes(
            outpoint,
            script,
            sequence,
        );
    parts_stand_apart(s, p, outpoint + script_bytes(script), sequence);
    parts_stand_apart(s, p, outpoint, script_bytes(script));
    scripts_are_passed(s, p + 36, script);
}

proof fn outputs_are_passed(s: Seq<u8>, p: int, b: Seq<u8>)
    requires
        0 <= p,
        is_output(b),
        stands_at(s, p, b),
    ensures
        output_end(s, p) == ReachModel::At(p + b.len()),
        b.len() > 0,
{
    let (amount, script): (Seq<u8>, Seq<u8>) = choose|amount: Seq<u8>, script: Seq<u8>|
        amount.len() == 8 && is_whole(script) && b == #[trigger] output_bytes(amount, script);
    parts_stand_apart(s, p, amount, script_bytes(script));
    scripts_are_passed(s, p + 8, script);
}

/// A transaction that is written is reached behind, wherever it stands: its version, its inputs,
/// its outputs and its lock time, each with what belongs to it.
pub proof fn transactions_are_passed(s: Seq<u8>, p: int, b: Seq<u8>)
    requires
        0 <= p,
        is_transaction(b),
        stands_at(s, p, b),
    ensures
        transaction_end(s, p) == ReachModel::At(p + b.len()),
        b.len() > 0,
{
    let (version, inputs, outputs, lock_time): (
        Seq<u8>,
        Seq<Seq<u8>>,
        Seq<Seq<u8>>,
        Seq<u8>,
    ) = choose|
        version: Seq<u8>,
        inputs: Seq<Seq<u8>>,
        outputs: Seq<Seq<u8>>,
        lock_time: Seq<u8>,
    |
        version.len() == 4 && are_all(inputs, |x: Seq<u8>| is_input(x)) && are_all(
            outputs,
            |x: Seq<u8>| is_output(x),
        ) && lock_time.len() == 4 && b == #[trigger] transaction_bytes(
            version,
            inputs,
            outputs,
            lock_time,
        );
    let rest = counted(outputs) + lock_time;
    parts_stand_apart(s, p, version, counted(inputs) + rest);
    parts_stand_apart(s, p + 4, counted(inputs), rest);
    let q = p + 4 + counted(inputs).len();
    parts_stand_apart(s, q, counted(outputs), lock_time);
    let input = |x: Seq<u8>| is_input(x);
    let output = |x: Seq<u8>| is_output(x);
    assert forall|i: int, at: int|
        0 <= i < inputs.len() && 0 <= at && #[trigger] stands_at(s, at, inputs[i]) implies (
    |i: int| input_end(s, i))(at) == ReachModel::At(at + inputs[i].len()) by {
        assert(input(inputs[i]));
        inputs_are_passed(s, at, inputs[i]);
    }
    assert forall|i: int, at: int|
        0 <= i < outputs.len() && 0 <= at && #[trigger] stands_at(s, at, outputs[i]) implies (
    |i: int| output_end(s, i))(at) == ReachModel::At(at + outputs[i].len()) by {
        assert(output(outputs[i]));
        outputs_are_passed(s, at, outputs[i]);
    }
    assert forall|i: int| 0 <= i < inputs.len() implies (#[trigger] inputs[i]).len() > 0 by {
        assert(input(inputs[i]));
    }
    assert forall|i: int| 0 <= i < outputs.len() implies (#[trigger] outputs[i]).len() > 0 by {
        assert(output(outputs[i]));
    }
    rows_are_long(inputs);
    rows_are_long(outputs);
    counted_parts_are_passed(s, |i: int| input_end(s, i), p + 4, inputs, room(s));
    counted_parts_are_passed(s, |i: int| output_end(s, i), q, outputs, room(s));
}

/// A node of a proof as it is written.
pub open spec fn leaf_bytes(offset: nat, flags: u8, hash: Seq<u8>) -> Seq<u8> {
    count_bytes(offset) + (seq![flags] + hash)
}

/// Whether bytes are the writing of a node of a proof. There is a hash unless the flags are odd.
pub open spec fn is_leaf(b: Seq<u8>) -> bool {
    exists|offset: nat, flags: u8, hash: Seq<u8>|
        offset <= u64::MAX && hash.len() == (if flags % 2 == 1 {
            0nat
        } else {
            32nat
        }) && b == #[trigger] leaf_bytes(offset, flags, hash)
}

/// Whether bytes are the writing of a level of a proof.
pub open spec fn is_level(b: Seq<u8>) -> bool {
    exists|leaves: Seq<Seq<u8>>|
        are_all(leaves, |x: Seq<u8>| is_leaf(x)) && b == #[trigger] counted(leaves)
}

/// A proof as it is written.
pub open spec fn proof_bytes(height: nat, levels: Seq<Seq<u8>>) -> Seq<u8> {
    count_bytes(height) + (seq![levels.len() as u8] + in_a_row(levels))
}

/// Whether bytes are the writing of a proof: a block height, and up to sixty-four levels.
pub open spec fn is_proof(b: Seq<u8>) -> bool {
    exists|height: nat, levels: Seq<Seq<u8>>|
        height <= u64::MAX && 0 < levels.len() <= 64 && are_all(levels, |x: Seq<u8>| is_level(x))
            && b == #[trigger] proof_bytes(height, levels)
}

/// An entry of the first version as it is written: the transaction, and the place of its proof where
/// it has one.
pub open spec fn first_entry_bytes(tx: Seq<u8>, place: Option<nat>) -> Seq<u8> {
    tx + (match place {
        Some(n) => seq![1u8] + count_bytes(n),
        None => seq![0u8],
    })
}

/// Whether bytes are the writing of an entry of the first version.
pub open spec fn is_first_entry(b: Seq<u8>) -> bool {
    exists|tx: Seq<u8>, place: Option<nat>|
        is_transaction(tx) && (place matches Some(n) ==> n <= 0xffff_ffff) && b
            == #[trigger] first_entry_bytes(tx, place)
}

/// An entry of the second version as it is written: the place of a proof where there is one, and the
/// transaction.
pub open spec fn second_entry_bytes(tx: Seq<u8>, place: Option<nat>) -> Seq<u8> {
    (match place {
        Some(n) => seq![1u8] + count_bytes(n),
        None => seq![0u8],
    }) + tx
}

/// Whether bytes are the writing of an entry of the second version: a transaction, or the
/// identifier of one that is known.
pub open spec fn is_second_entry(b: Seq<u8>) -> bool {
    ||| exists|tx: Seq<u8>, place: Option<nat>|
        is_transaction(tx) && (place matches Some(n) ==> n <= 0xffff_ffff) && b
            == #[trigger] second_entry_bytes(tx, place)
    ||| b.len() == 33 && b[0] == 2
}

/// A BEEF as it is written: the version, the proofs and the entries.
pub open spec fn bundle_bytes(
    version: Seq<u8>,
    proofs: Seq<Seq<u8>>,
    entries: Seq<Seq<u8>>,
) -> Seq<u8> {
    version + (counted(proofs) + counted(entries))
}

proof fn leaves_are_passed(s: Seq<u8>, p: int, b: Seq<u8>)
    requires
        0 <= p,
        is_leaf(b),
        stands_at(s, p, b),
    ensures
        leaf_end(s, p) == ReachModel::At(p + b.len()),
{
    let (offset, flags, hash): (nat, u8, Seq<u8>) = choose|offset: nat, flags: u8, hash: Seq<u8>|
        offset <= u64::MAX && hash.len() == (if flags % 2 == 1 {
            0nat
        } else {
            32nat
        }) && b == #[trigger] leaf_bytes(offset, flags, hash);
    parts_stand_apart(s, p, count_bytes(offset), seq![flags] + hash);
    counts_are_read(s, p, offset);
    let q = p + count_bytes(offset).len();
    parts_stand_apart(s, q, seq![flags], hash);
    bytes_stand_at(s, q, seq![flags], 0);
}

proof fn levels_are_passed(s: Seq<u8>, p: int, b: Seq<u8>)
    requires
        0 <= p,
        is_level(b),
        stands_at(s, p, b),
    ensures
        level_end(s, p) == ReachModel::At(p + b.len()),
{
    let leaves: Seq<Seq<u8>> = choose|leaves: Seq<Seq<u8>>|
        are_all(leaves, |x: Seq<u8>| is_leaf(x)) && b == #[trigger] counted(leaves);
    let leaf = |x: Seq<u8>| is_leaf(x);
    let part = |i: int| leaf_end(s, i);
    assert forall|i: int, at: int|
        0 <= i < leaves.len() && 0 <= at && #[trigger] stands_at(s, at, leaves[i]) implies part(at)
        == ReachModel::At(at + leaves[i].len()) by {
        assert(leaf(leaves[i]));
        leaves_are_passed(s, at, leaves[i]);
    }
    parts_stand_apart(s, p, count_bytes(leaves.len()), in_a_row(leaves));
    counts_are_read(s, p, leaves.len());
    rows_are_passed(s, part, p + count_bytes(leaves.len()).len(), leaves);
}

proof fn proofs_are_passed(s: Seq<u8>, p: int, b: Seq<u8>)
    requires
        0 <= p,
        is_proof(b),
        stands_at(s, p, b),
    ensures
        proof_end(s, p) == ReachModel::At(p + b.len()),
{
    let (height, levels): (nat, Seq<Seq<u8>>) = choose|height: nat, levels: Seq<Seq<u8>>|
        height <= u64::MAX && 0 < levels.len() <= 64 && are_all(levels, |x: Seq<u8>| is_level(x))
            && b == #[trigger] proof_bytes(height, levels);
    let level = |x: Seq<u8>| is_level(x);
    let part = |i: int| level_end(s, i);
    assert forall|i: int, at: int|
        0 <= i < levels.len() && 0 <= at && #[trigger] stands_at(s, at, levels[i]) implies part(at)
        == ReachModel::At(at + levels[i].len()) by {
        assert(level(levels[i]));
        levels_are_passed(s, at, levels[i]);
    }
    let tall = seq![levels.len() as u8];
    parts_stand_apart(s, p, count_bytes(height), tall + in_a_row(levels));
    counts_are_read(s, p, height);
    let q = p + count_bytes(height).len();
    parts_stand_apart(s, q, tall, in_a_row(levels));
    bytes_stand_at(s, q, tall, 0);
    rows_are_passed(s, part, q + 1, levels);
}

proof fn first_entries_are_passed(s: Seq<u8>, p: int, b: Seq<u8>)
    requires
        0 <= p,
        is_first_entry(b),
        stands_at(s, p, b),
    ensures
        first_entry_end(s, p) == ReachModel::At(p + b.len()),
{
    let (tx, place): (Seq<u8>, Option<nat>) = choose|tx: Seq<u8>, place: Option<nat>|
        is_transaction(tx) && (place matches Some(n) ==> n <= 0xffff_ffff) && b
            == #[trigger] first_entry_bytes(tx, place);
    let behind = match place {
        Some(n) => seq![1u8] + count_bytes(n),
        None => seq![0u8],
    };
    parts_stand_apart(s, p, tx, behind);
    transactions_are_passed(s, p, tx);
    let q = p + tx.len();
    match place {
        Some(n) => {
            parts_stand_apart(s, q, seq![1u8], count_bytes(n));
            bytes_stand_at(s, q, seq![1u8], 0);
            counts_are_read(s, q + 1, n);
        },
        None => {
            bytes_stand_at(s, q, seq![0u8], 0);
        },
    }
}

proof fn second_entries_are_passed(s: Seq<u8>, p: int, b: Seq<u8>)
    requires
        0 <= p,
        is_second_entry(b),
        stands_at(s, p, b),
    ensures
        second_entry_end(s, p) == ReachModel::At(p + b.len()),
{
    if b.len() == 33 && b[0] == 2 {
        bytes_stand_at(s, p, b, 0);
    } else {
        let (tx, place): (Seq<u8>, Option<nat>) = choose|tx: Seq<u8>, place: Option<nat>|
            is_transaction(tx) && (place matches Some(n) ==> n <= 0xffff_ffff) && b
                == #[trigger] second_entry_bytes(tx, place);
        match place {
            Some(n) => proven_entries_are_passed(s, p, tx, n),
            None => plain_entries_are_passed(s, p, tx),
        }
    }
}

proof fn plain_entries_are_passed(s: Seq<u8>, p: int, tx: Seq<u8>)
    requires
        0 <= p,
        is_transaction(tx),
        stands_at(s, p, seq![0u8] + tx),
    ensures
        second_entry_end(s, p) == ReachModel::At(p + 1 + tx.len()),
{
    parts_stand_apart(s, p, seq![0u8], tx);
    bytes_stand_at(s, p, seq![0u8], 0);
    transactions_are_passed(s, p + 1, tx);
}

proof fn proven_entries_are_passed(s: Seq<u8>, p: int, tx: Seq<u8>, n: nat)
    requires
        0 <= p,
        n <= 0xffff_ffff,
        is_transaction(tx),
        stands_at(s, p, (seq![1u8] + count_bytes(n)) + tx),
    ensures
        second_entry_end(s, p) == ReachModel::At(p + 1 + count_bytes(n).len() + tx.len()),
{
    let before = seq![1u8] + count_bytes(n);
    parts_stand_apart(s, p, before, tx);
    parts_stand_apart(s, p, seq![1u8], count_bytes(n));
    bytes_stand_at(s, p, seq![1u8], 0);
    counts_are_read(s, p + 1, n);
    let q = p + 1 + count_bytes(n).len();
    transactions_are_passed(s, q, tx);
    assert(place_end(s, p + 1) == ReachModel::At(q));
}

proof fn all_proofs_are_passed(s: Seq<u8>, p: int, proofs: Seq<Seq<u8>>)
    requires
        0 <= p,
        are_all(proofs, |x: Seq<u8>| is_proof(x)),
        stands_at(s, p, counted(proofs)),
    ensures
        proofs_end(s, p) == ReachModel::At(p + counted(proofs).len()),
{
    reveal(proofs_end);
    let kind = |x: Seq<u8>| is_proof(x);
    let part = |i: int| proof_end(s, i);
    assert forall|i: int, at: int|
        0 <= i < proofs.len() && 0 <= at && #[trigger] stands_at(s, at, proofs[i]) implies part(at)
        == ReachModel::At(at + proofs[i].len()) by {
        assert(kind(proofs[i]));
        proofs_are_passed(s, at, proofs[i]);
    }
    counted_parts_are_passed(s, part, p, proofs, GREATEST_COUNT as nat);
}

proof fn all_first_entries_are_passed(s: Seq<u8>, p: int, entries: Seq<Seq<u8>>)
    requires
        0 <= p,
        are_all(entries, |x: Seq<u8>| is_first_entry(x)),
        stands_at(s, p, counted(entries)),
    ensures
        first_entries_end(s, p) is At,
{
    reveal(first_entries_end);
    let kind = |x: Seq<u8>| is_first_entry(x);
    let part = |i: int| first_entry_end(s, i);
    assert forall|i: int, at: int|
        0 <= i < entries.len() && 0 <= at && #[trigger] stands_at(s, at, entries[i]) implies part(at)
        == ReachModel::At(at + entries[i].len()) by {
        assert(kind(entries[i]));
        first_entries_are_passed(s, at, entries[i]);
    }
    counted_parts_are_passed(s, part, p, entries, GREATEST_COUNT as nat);
}

proof fn all_second_entries_are_passed(s: Seq<u8>, p: int, entries: Seq<Seq<u8>>)
    requires
        0 <= p,
        are_all(entries, |x: Seq<u8>| is_second_entry(x)),
        stands_at(s, p, counted(entries)),
    ensures
        second_entries_end(s, p) is At,
{
    reveal(second_entries_end);
    let kind = |x: Seq<u8>| is_second_entry(x);
    let part = |i: int| second_entry_end(s, i);
    assert forall|i: int, at: int|
        0 <= i < entries.len() && 0 <= at && #[trigger] stands_at(s, at, entries[i]) implies part(at)
        == ReachModel::At(at + entries[i].len()) by {
        assert(kind(entries[i]));
        second_entries_are_passed(s, at, entries[i]);
    }
    counted_parts_are_passed(s, part, p, entries, GREATEST_COUNT as nat);
}

proof fn bundles_are_passed(
    s: Seq<u8>,
    p: int,
    first: bool,
    proofs: Seq<Seq<u8>>,
    entries: Seq<Seq<u8>>,
)
    requires
        0 <= p,
        are_all(proofs, |x: Seq<u8>| is_proof(x)),
        first ==> are_all(entries, |x: Seq<u8>| is_first_entry(x)),
        !first ==> are_all(entries, |x: Seq<u8>| is_second_entry(x)),
        stands_at(
            s,
            p,
            bundle_bytes(
                if first {
                    first_version()
                } else {
                    second_version()
                },
                proofs,
                entries,
            ),
        ),
    ensures
        bundle_end(s, p) is At,
{
    let version = if first {
        first_version()
    } else {
        second_version()
    };
    parts_stand_apart(s, p, version, counted(proofs) + counted(entries));
    parts_stand_apart(s, p + 4, counted(proofs), counted(entries));
    let q = p + 4 + counted(proofs).len();
    all_proofs_are_passed(s, p + 4, proofs);
    if first {
        all_first_entries_are_passed(s, q, entries);
    } else {
        bytes_stand_at(s, p, version, 0);
        if stands_at(s, p, first_version()) {
            bytes_stand_at(s, p, first_version(), 0);
        }
        all_second_entries_are_passed(s, q, entries);
    }
}

/// Every BEEF that is written of proofs and transactions can be read, in either version, with and
/// without the identifier of the transaction that it is about before it, and whatever stands behind
/// it.
pub proof fn written_beefs_are_read(
    first: bool,
    proofs: Seq<Seq<u8>>,
    entries: Seq<Seq<u8>>,
    about: Seq<u8>,
    behind: Seq<u8>,
)
    requires
        are_all(proofs, |x: Seq<u8>| is_proof(x)),
        first ==> are_all(entries, |x: Seq<u8>| is_first_entry(x)),
        !first ==> are_all(entries, |x: Seq<u8>| is_second_entry(x)),
        about.len() == 32,
    ensures
        ({
            let version = if first {
                seq![0x01u8, 0x00, 0xbe, 0xef]
            } else {
                seq![0x02u8, 0x00, 0xbe, 0xef]
            };
            let bundle = bundle_bytes(version, proofs, entries);
            &&& is_beef(bundle + behind)
            &&& is_beef(seq![0x01u8, 0x01, 0x01, 0x01] + about + bundle + behind)
        }),
{
    let version = if first {
        first_version()
    } else {
        second_version()
    };
    let bundle = bundle_bytes(version, proofs, entries);
    let s = bundle + behind;
    assert(s.subrange(0, 0 + bundle.len() as int) =~= bundle);
    bundles_are_passed(s, 0, first, proofs, entries);
    assert(s[0] == version[0] && s[1] == version[1]);
    if stands_at(s, 0, atomic_version()) {
        bytes_stand_at(s, 0, atomic_version(), 1);
    }
    let t = atomic_version() + about + bundle + behind;
    assert(t.subrange(36, 36 + bundle.len() as int) =~= bundle);
    bundles_are_passed(t, 36, first, proofs, entries);
    assert(t.subrange(0, 4) =~= atomic_version());
}

/// The notation of a script is read exactly when the script can be read to its end.
pub proof fn notations_of_whole_scripts_are_read(script: Seq<u8>)
    ensures
        is_whole(script) ==> script_text(hex_text(script)) == script_of_hex(hex_text(script)),
        !is_whole(script) ==> script_text(hex_text(script)) is Err,
{
    hex_text_reads_back(script);
    hexadecimal_notation_is_read(hex_text(script));
}

} // verus!
