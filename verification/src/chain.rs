//! Keys, locking scripts and transactions: what the library has from the BSV SDK, and the script
//! bytes that it writes itself.

use crate::beef::beef_end;
use crate::codec::{hex_bytes, hex_value, is_hex, is_hex_digit};
use crate::text::{result_view, success_view, views};
use bsv::script::ScriptTemplateLock;
use bsv::wallet::types::{Counterparty, CounterpartyType, Protocol};
use vstd::prelude::*;
use vstd::string::*;

verus! {

broadcast use vstd::string::group_string_axioms;

// ---------------------------------------------------------------------------------------------
// Hexadecimal texts, as the SDK reads them
// ---------------------------------------------------------------------------------------------

/// What the SDK's readers make of a hexadecimal text. They read it in pairs of bytes, up to the
/// first that is no number.
pub enum HexReading {
    /// The numbers.
    Bytes(Vec<u8>),
    /// There is an odd byte, or a pair that is no number.
    Refused,
    /// A pair ends inside a character. There the readers panic.
    Cut,
}

/// The contents of a `HexReading`.
#[verifier::ext_equal]
pub enum HexReadingModel {
    Bytes(Seq<u8>),
    Refused,
    Cut,
}

impl View for HexReading {
    type V = HexReadingModel;

    open spec fn view(&self) -> HexReadingModel {
        match self {
            HexReading::Bytes(v) => HexReadingModel::Bytes(v@),
            HexReading::Refused => HexReadingModel::Refused,
            HexReading::Cut => HexReadingModel::Cut,
        }
    }
}

/// The value of a hexadecimal digit, in either case.
pub open spec fn digit_value(b: u8) -> Option<u8> {
    if 0x30 <= b <= 0x39 {
        Some((b - 0x30) as u8)
    } else if 0x61 <= b <= 0x66 {
        Some((b - 0x61 + 10) as u8)
    } else if 0x41 <= b <= 0x46 {
        Some((b - 0x41 + 10) as u8)
    } else {
        None
    }
}

/// The number that a pair stands for: two digits, or a plus sign and a digit.
pub open spec fn pair_value(a: u8, b: u8) -> Option<u8> {
    match (digit_value(a), digit_value(b)) {
        (Some(high), Some(low)) => Some((16 * high + low) as u8),
        (None, Some(low)) if a == 0x2b => Some(low),
        _ => None,
    }
}

/// What is read of some pairs from the place `i` on.
pub open spec fn pairs_from(b: Seq<u8>, i: int) -> HexReadingModel
    decreases b.len() - i,
{
    if i + 1 >= b.len() {
        HexReadingModel::Bytes(Seq::empty())
    } else if i + 2 < b.len() && 0x80 <= b[i + 2] <= 0xbf {
        HexReadingModel::Cut
    } else {
        match pair_value(b[i], b[i + 1]) {
            None => HexReadingModel::Refused,
            Some(x) => led_by(seq![x], pairs_from(b, i + 2)),
        }
    }
}

/// What is read of a text in all, when some bytes were read before.
pub open spec fn led_by(before: Seq<u8>, r: HexReadingModel) -> HexReadingModel {
    match r {
        HexReadingModel::Bytes(rest) => HexReadingModel::Bytes(before + rest),
        _ => r,
    }
}

/// What is read of a text.
pub open spec fn hex_reading(text: Seq<char>) -> HexReadingModel {
    let b = vstd::utf8::encode_utf8(text);
    if b.len() % 2 != 0 {
        HexReadingModel::Refused
    } else {
        pairs_from(b, 0)
    }
}

fn read_digit(b: u8) -> (r: Option<u8>)
    ensures
        r == digit_value(b),
        r matches Some(d) ==> d < 16,
{
    if 0x30 <= b && b <= 0x39 {
        Some(b - 0x30)
    } else if 0x61 <= b && b <= 0x66 {
        Some(b - 0x61 + 10)
    } else if 0x41 <= b && b <= 0x46 {
        Some(b - 0x41 + 10)
    } else {
        None
    }
}

fn read_pair(a: u8, b: u8) -> (r: Option<u8>)
    ensures
        r == pair_value(a, b),
{
    match (read_digit(a), read_digit(b)) {
        (Some(high), Some(low)) => Some(16 * high + low),
        (None, Some(low)) => if a == 0x2b {
            Some(low)
        } else {
            None
        },
        _ => None,
    }
}

/// What the SDK's readers make of a text.
pub fn read_hex(text: &str) -> (r: HexReading)
    ensures
        r@ == hex_reading(text@),
{
    let b = text.as_bytes_vec();
    if b.len() % 2 != 0 {
        return HexReading::Refused;
    }
    let mut read: Vec<u8> = Vec::new();
    let mut i: usize = 0;
    assert(led_by(read@, pairs_from(b@, 0)) =~= pairs_from(b@, 0));
    while i < b.len()
        invariant
            b@ == vstd::utf8::encode_utf8(text@),
            b@.len() % 2 == 0,
            i % 2 == 0,
            0 <= i <= b@.len(),
            led_by(read@, pairs_from(b@, i as int)) == pairs_from(b@, 0),
        decreases b@.len() - i,
    {
        if b.len() - i > 2 && 0x80 <= b[i + 2] && b[i + 2] <= 0xbf {
            return HexReading::Cut;
        }
        match read_pair(b[i], b[i + 1]) {
            None => {
                return HexReading::Refused;
            },
            Some(x) => {
                let ghost before = read@;
                read.push(x);
                proof {
                    let rest = pairs_from(b@, i + 2);
                    assert(led_by(read@, rest) =~= led_by(before, led_by(seq![x], rest)));
                }
            },
        }
        i = i + 2;
    }
    assert(read@ + Seq::<u8>::empty() =~= read@);
    HexReading::Bytes(read)
}

// ---------------------------------------------------------------------------------------------
// Public keys
// ---------------------------------------------------------------------------------------------

/// The public key that a text stands for, in compressed hexadecimal notation, or the message of the
/// error.
pub uninterp spec fn parsed_key(text: Seq<char>) -> Result<Seq<char>, Seq<char>>;

/// The 160-bit hash of the public key that a text stands for, or the message of the error.
pub uninterp spec fn parsed_key_hash(text: Seq<char>) -> Result<Seq<u8>, Seq<char>>;

/// `PublicKey::from_string`, with the key in the notation of `to_der_hex` and the error as its
/// message. The contract names the outcome and claims that the notation is ASCII. A text in which a
/// pair ends inside a character is left out: the SDK's hexadecimal reader panics on it.
#[verifier::external_body]
pub(crate) fn parse_key(text: &str) -> (r: Result<String, String>)
    requires
        !(hex_reading(text@) is Cut),
    ensures
        result_view(r) == parsed_key(text@),
        r matches Ok(key) ==> vstd::utf8::is_ascii_chars(key@),
{
    bsv::primitives::public_key::PublicKey::from_string(text)
        .map(|k| k.to_der_hex())
        .map_err(|e| e.to_string())
}

/// `PublicKey::to_hash` on the key that a text stands for. The contract names the outcome, claims
/// the length of a hash, and that there is a hash exactly where `PublicKey::from_string` reads a
/// key, and else its error.
#[verifier::external_body]
pub(crate) fn parse_key_hash(text: &str) -> (r: Result<Vec<u8>, String>)
    requires
        !(hex_reading(text@) is Cut),
    ensures
        result_view(r) == parsed_key_hash(text@),
        r matches Ok(hash) ==> hash@.len() == 20,
        match r {
            Ok(_) => parsed_key(text@) is Ok,
            Err(e) => parsed_key(text@) is Err && parsed_key(text@)->Err_0 == e@,
        },
{
    bsv::primitives::public_key::PublicKey::from_string(text)
        .map(|k| k.to_hash())
        .map_err(|e| e.to_string())
}

/// The public key that a text stands for, or the message of the error.
pub open spec fn key_of(text: Seq<char>) -> Result<Seq<char>, Seq<char>> {
    if hex_reading(text) is Cut {
        Err("invalid hex: not ASCII"@)
    } else {
        parsed_key(text)
    }
}

/// The public key that a text stands for, in compressed hexadecimal notation.
pub fn public_key(text: &str) -> (r: Result<String, String>)
    ensures
        result_view(r) == key_of(text@),
        r matches Ok(key) ==> vstd::utf8::is_ascii_chars(key@),
{
    match read_hex(text) {
        HexReading::Cut => Err("invalid hex: not ASCII".to_owned()),
        _ => parse_key(text),
    }
}

// ---------------------------------------------------------------------------------------------
// Locking scripts
// ---------------------------------------------------------------------------------------------

/// The script that locks an output to the hash of a public key: duplicate, hash, push the
/// twenty bytes, compare, check the signature.
pub open spec fn key_hash_script(hash: Seq<u8>) -> Seq<u8> {
    seq![0x76u8, 0xa9, 0x14] + hash + seq![0x88u8, 0xac]
}

/// The script that pays to the key that a text stands for, or the message of the error.
pub open spec fn payment_script_of(key: Seq<char>) -> Result<Seq<u8>, Seq<char>> {
    if hex_reading(key) is Cut {
        Err("invalid hex: not ASCII"@)
    } else {
        match parsed_key_hash(key) {
            Ok(hash) => Ok(key_hash_script(hash)),
            Err(e) => Err(e),
        }
    }
}

/// `P2PKH::from_public_key_hash` and `lock`, as script bytes. The contract claims the script of
/// twenty-five bytes that the SDK documents, and that `lock` does not fail once the hash is set.
#[verifier::external_body]
pub(crate) fn lock_to_key_hash(hash: &Vec<u8>) -> (r: Result<Vec<u8>, String>)
    requires
        hash@.len() == 20,
    ensures
        r is Ok,
        r->Ok_0@ == key_hash_script(hash@),
{
    let mut bytes = [0u8; 20];
    bytes.copy_from_slice(hash);
    bsv::script::templates::P2PKH::from_public_key_hash(bytes)
        .lock()
        .map(|s| s.to_binary())
        .map_err(|e| e.to_string())
}

/// The script that pays to the key that a text stands for. There is one exactly where there is a
/// key.
pub fn payment_script(key: &str) -> (r: Result<Vec<u8>, String>)
    ensures
        result_view(r) == payment_script_of(key@),
        match r {
            Ok(script) => key_of(key@) is Ok && script@.len() == 25,
            Err(e) => key_of(key@) is Err && key_of(key@)->Err_0 == e@,
        },
{
    match read_hex(key) {
        HexReading::Cut => Err("invalid hex: not ASCII".to_owned()),
        _ => match parse_key_hash(key) {
            Ok(hash) => lock_to_key_hash(&hash),
            Err(e) => Err(e),
        },
    }
}

/// The opcode and length bytes that push `len` bytes of data: the shortest that fit. Four bytes
/// hold the length modulo their range.
pub open spec fn push_prefix(len: nat) -> Seq<u8> {
    if len < 0x4c {
        seq![len as u8]
    } else if len < 0x100 {
        seq![0x4cu8, len as u8]
    } else if len < 0x1_0000 {
        seq![0x4du8, (len % 0x100) as u8, (len / 0x100) as u8]
    } else {
        seq![
            0x4eu8,
            (len % 0x100) as u8,
            (len / 0x100 % 0x100) as u8,
            (len / 0x1_0000 % 0x100) as u8,
            (len / 0x100_0000 % 0x100) as u8,
        ]
    }
}

/// The script element that pushes `data`.
pub open spec fn data_push(data: Seq<u8>) -> Seq<u8> {
    push_prefix(data.len()) + data
}

/// The script element that pushes `data`, with the shortest opcode.
pub fn make_data_push(data: &[u8]) -> (r: Vec<u8>)
    ensures
        r@ == data_push(data@),
{
    let len: u64 = data.len() as u64;
    let mut r: Vec<u8> = Vec::new();
    if len < 0x4c {
        r.push(len as u8);
    } else if len < 0x100 {
        r.push(0x4c);
        r.push(len as u8);
    } else if len < 0x1_0000 {
        r.push(0x4d);
        r.push((len % 0x100) as u8);
        r.push((len / 0x100) as u8);
    } else {
        r.push(0x4e);
        r.push((len % 0x100) as u8);
        r.push((len / 0x100 % 0x100) as u8);
        r.push((len / 0x1_0000 % 0x100) as u8);
        r.push((len / 0x100_0000 % 0x100) as u8);
    }
    assert(r@ =~= push_prefix(data@.len()));
    r.extend_from_slice(data);
    assert(r@ =~= data_push(data@));
    r
}

/// How many bytes a push of `script` announces at its start, and where they begin.
pub open spec fn announced(script: Seq<u8>) -> Option<(nat, int)> {
    if script.len() == 0 {
        None
    } else if script[0] < 0x4c {
        Some((script[0] as nat, 1int))
    } else if script[0] == 0x4c && script.len() > 1 {
        Some((script[1] as nat, 2int))
    } else if script[0] == 0x4d && script.len() > 2 {
        Some(((script[1] + 0x100 * script[2]) as nat, 3int))
    } else if script[0] == 0x4e && script.len() > 4 {
        Some(
            (
                (script[1] + 0x100 * script[2] + 0x1_0000 * script[3] + 0x100_0000
                    * script[4]) as nat,
                5int,
            ),
        )
    } else {
        None
    }
}

/// A push announces the length of its data, which follows, for any data that a push can hold.
pub proof fn data_push_announces_its_length(data: Seq<u8>)
    requires
        data.len() < 0x1_0000_0000,
    ensures
        announced(data_push(data)) == Some((data.len(), push_prefix(data.len()).len() as int)),
        data_push(data).subrange(push_prefix(data.len()).len() as int, data_push(data).len() as int)
            == data,
{
    let len = data.len();
    let p = data_push(data);
    assert(p.subrange(push_prefix(len).len() as int, p.len() as int) =~= data);
    if 0x1_0000 <= len {
        assert(len % 0x100 + 0x100 * (len / 0x100 % 0x100) + 0x1_0000 * (len / 0x1_0000 % 0x100)
            + 0x100_0000 * (len / 0x100_0000 % 0x100) == len) by (nonlinear_arith)
            requires
                len < 0x1_0000_0000,
        ;
    }
}

/// No encoding with a shorter prefix announces the same length.
pub proof fn data_push_is_shortest(len: nat, other: Seq<u8>)
    requires
        len < 0x1_0000_0000,
        announced(other) is Some,
    ensures
        announced(other) matches Some((n, at)) && (n == len ==> push_prefix(len).len() <= at),
{
}

// ---------------------------------------------------------------------------------------------
// Data-carrying outputs
// ---------------------------------------------------------------------------------------------

/// The elements that push each field in turn.
pub open spec fn field_pushes(fields: Seq<Seq<u8>>) -> Seq<u8>
    decreases fields.len(),
{
    if fields.len() == 0 {
        Seq::empty()
    } else {
        field_pushes(fields.drop_last()) + data_push(fields.last())
    }
}

/// `n` fields dropped from the stack, by twos.
pub open spec fn drops(n: nat) -> Seq<u8> {
    Seq::new(n / 2, |i: int| 0x6du8) + Seq::new(n % 2, |i: int| 0x75u8)
}

/// The script that carries `fields` and locks them to `key`: the key, a signature check, the
/// fields, and their drops.
pub open spec fn push_drop_script(key: Seq<u8>, fields: Seq<Seq<u8>>) -> Seq<u8> {
    seq![key.len() as u8] + key + seq![0xacu8] + field_pushes(fields) + drops(fields.len())
}

/// The private key one, in thirty-two bytes.
pub open spec fn key_one() -> Seq<u8> {
    Seq::new(32, |i: int| if i == 31 { 1u8 } else { 0u8 })
}

/// `PushDrop::new` and `lock` with the private key of the given bytes, as script bytes. The
/// contract claims that the key one and a field make a script, and that a script has a push of
/// thirty-three bytes for the key, the signature check, and the fields with their drops. Which
/// thirty-three bytes stand for the key is not said.
#[verifier::external_body]
pub(crate) fn lock_with_data(fields: Vec<Vec<u8>>, key: &Vec<u8>) -> (r: Result<Vec<u8>, String>)
    ensures
        fields@.len() > 0 && key@ == key_one() ==> r is Ok,
        r matches Ok(script) ==> exists|k: Seq<u8>|
            k.len() == 33 && script@ == push_drop_script(k, views(fields@)),
{
    let private_key = bsv::primitives::private_key::PrivateKey::from_bytes(key)
        .map_err(|e| e.to_string())?;
    bsv::script::templates::PushDrop::new(fields, private_key)
        .lock()
        .map(|s| s.to_binary())
        .map_err(|e| e.to_string())
}

/// The script that carries `fields` and locks them to `key`.
pub fn advertisement_script(key: &Vec<u8>, fields: Vec<Vec<u8>>) -> (r: Result<Vec<u8>, String>)
    requires
        key@.len() == 33,
        fields@.len() > 0,
    ensures
        r is Ok,
        r->Ok_0@ == push_drop_script(key@, views(fields@)),
{
    let mut one: Vec<u8> = Vec::new();
    while one.len() < 31
        invariant
            one@.len() <= 31,
            forall|i: int| 0 <= i < one@.len() ==> one@[i] == 0,
        decreases 31 - one@.len(),
    {
        one.push(0);
    }
    one.push(1);
    assert(one@ =~= key_one());
    let ghost want = push_drop_script(key@, views(fields@));
    let ghost given = views(fields@);
    match lock_with_data(fields, &one) {
        Err(e) => Err(e),
        Ok(placeholder) => {
            let ghost k = choose|k: Seq<u8>|
                k.len() == 33 && placeholder@ == push_drop_script(k, given);
            let mut script: Vec<u8> = Vec::new();
            script.push(33);
            script.extend_from_slice(key.as_slice());
            let mut i: usize = 34;
            assert(script@ =~= want.take(34));
            while i < placeholder.len()
                invariant
                    34 <= i <= placeholder@.len(),
                    k.len() == 33,
                    key@.len() == 33,
                    placeholder@ == push_drop_script(k, given),
                    want == push_drop_script(key@, given),
                    script@ == want.take(i as int),
                decreases placeholder@.len() - i,
            {
                assert(placeholder@[i as int] == want[i as int]);
                script.push(placeholder[i]);
                assert(script@ =~= want.take(i + 1));
                i = i + 1;
            }
            assert(want.take(i as int) =~= want);
            Ok(script)
        },
    }
}

// ---------------------------------------------------------------------------------------------
// Reading scripts
// ---------------------------------------------------------------------------------------------

/// A script byte, or zero past the end.
pub open spec fn byte_at(s: Seq<u8>, i: int) -> int {
    if 0 <= i < s.len() {
        s[i] as int
    } else {
        0
    }
}

/// The lesser of two positions.
pub open spec fn lesser(a: int, b: int) -> int {
    if a <= b {
        a
    } else {
        b
    }
}

/// The greatest position that every machine can count up to.
pub const LAST_POSITION: u64 = 0xffff_ffff;

/// Whether reading the script from `pos`, inside `depth` conditionals, comes to a one-byte-length
/// push opcode with nothing behind it, or to a push whose end is beyond every position.
pub open spec fn cut_short(s: Seq<u8>, pos: int, depth: int) -> bool
    decreases s.len() - pos,
{
    let len = s.len() as int;
    if pos < 0 || pos >= len {
        false
    } else {
        let op = s[pos];
        let depth2 = if 0x63 <= op <= 0x66 {
            depth + 1
        } else if op == 0x68 {
            depth - 1
        } else {
            depth
        };
        if op == 0x6a && depth == 0 {
            false
        } else if 0 < op < 0x4c {
            cut_short(s, lesser(pos + 1 + op, len), depth2)
        } else if op == 0x4c {
            pos + 1 >= len || cut_short(s, lesser(pos + 2 + s[pos + 1], len), depth2)
        } else if op == 0x4d {
            cut_short(
                s,
                lesser(
                    lesser(pos + 3, len) + byte_at(s, pos + 1) + 0x100 * byte_at(s, pos + 2),
                    len,
                ),
                depth2,
            )
        } else if op == 0x4e {
            let end = lesser(pos + 5, len) + byte_at(s, pos + 1) + 0x100 * byte_at(s, pos + 2)
                + 0x1_0000 * byte_at(s, pos + 3) + 0x100_0000 * byte_at(s, pos + 4);
            end > LAST_POSITION || cut_short(s, lesser(end, len), depth2)
        } else {
            cut_short(s, pos + 1, depth2)
        }
    }
}

/// Whether a script can be read to its end.
pub open spec fn is_whole(s: Seq<u8>) -> bool {
    s.len() <= 0x7fff_ffff && !cut_short(s, 0, 0)
}

fn script_byte(s: &Vec<u8>, i: u64) -> (r: u64)
    ensures
        r == byte_at(s@, i as int),
        r < 0x100,
{
    if i < s.len() as u64 {
        s[i as usize] as u64
    } else {
        0
    }
}

/// Whether a script can be read to its end.
pub fn whole_script(s: &Vec<u8>) -> (r: bool)
    ensures
        r == is_whole(s@),
{
    let len: u64 = s.len() as u64;
    if len > 0x7fff_ffff {
        return false;
    }
    let mut pos: u64 = 0;
    let mut depth: i64 = 0;
    while pos < len
        invariant
            len == s@.len(),
            len <= 0x7fff_ffff,
            0 <= pos <= len,
            -pos <= depth <= pos,
            cut_short(s@, 0, 0) == cut_short(s@, pos as int, depth as int),
        decreases len - pos,
    {
        let op: u8 = s[pos as usize];
        if op == 0x6a && depth == 0 {
            return true;
        }
        if 0x63 <= op && op <= 0x66 {
            depth = depth + 1;
        } else if op == 0x68 {
            depth = depth - 1;
        }
        let mut next: u64 = pos + 1;
        if 0 < op && op < 0x4c {
            next = pos + 1 + op as u64;
        } else if op == 0x4c {
            if pos + 1 >= len {
                return false;
            }
            next = pos + 2 + script_byte(s, pos + 1);
        } else if op == 0x4d {
            let body: u64 = if pos + 3 <= len {
                pos + 3
            } else {
                len
            };
            next = body + script_byte(s, pos + 1) + 0x100 * script_byte(s, pos + 2);
        } else if op == 0x4e {
            let body: u64 = if pos + 5 <= len {
                pos + 5
            } else {
                len
            };
            next = body + script_byte(s, pos + 1) + 0x100 * script_byte(s, pos + 2) + 0x1_0000
                * script_byte(s, pos + 3) + 0x100_0000 * script_byte(s, pos + 4);
            if next > LAST_POSITION {
                return false;
            }
        }
        pos = if next <= len {
            next
        } else {
            len
        };
    }
    true
}

/// The data fields of a script, or the message of the error.
pub uninterp spec fn push_drop_fields(script: Seq<u8>) -> Result<Seq<Seq<u8>>, Seq<char>>;

/// Whether a script carries some fields, locked to a key. A field is not empty, and not longer
/// than a push can announce.
pub open spec fn carries(script: Seq<u8>, fields: Seq<Seq<u8>>) -> bool {
    &&& fields.len() > 0
    &&& forall|i: int| 0 <= i < fields.len() ==> 0 < (#[trigger] fields[i]).len() <= 0xffff_ffff
    &&& exists|k: Seq<u8>| k.len() == 33 && script == #[trigger] push_drop_script(k, fields)
}

/// `PushDrop::decode` on the script of the given bytes. The contract names the outcome, and claims
/// that the fields which a script carries are read back from it. A script that is cut short is
/// left out: the SDK's script reader panics on it.
#[verifier::external_body]
pub(crate) fn decode_fields(script: &Vec<u8>) -> (r: Result<Vec<Vec<u8>>, String>)
    requires
        is_whole(script@),
    ensures
        match r {
            Ok(fields) => push_drop_fields(script@) == Ok::<_, Seq<char>>(views(fields@)),
            Err(e) => push_drop_fields(script@) == Err::<Seq<Seq<u8>>, _>(e@),
        },
        match r {
            Ok(read) => forall|fields: Seq<Seq<u8>>| #[trigger]
                carries(script@, fields) ==> views(read@) == fields,
            Err(_) => forall|fields: Seq<Seq<u8>>| !#[trigger] carries(script@, fields),
        },
{
    bsv::script::templates::PushDrop::decode(&bsv::script::LockingScript::from_binary(script))
        .map(|p| p.fields)
        .map_err(|e| e.to_string())
}

/// The script that a hexadecimal text stands for, as bytes, or the message of the error.
pub uninterp spec fn script_of_hex(text: Seq<char>) -> Result<Seq<u8>, Seq<char>>;

/// Texts that the SDK's script reader takes or refuses: no pair ends inside a character, and the
/// text is not the notation of a script that is cut short.
pub open spec fn is_script_text(text: Seq<char>) -> bool {
    match hex_reading(text) {
        HexReadingModel::Bytes(script) => is_whole(script),
        HexReadingModel::Refused => true,
        HexReadingModel::Cut => false,
    }
}

/// `LockingScript::from_hex`, as script bytes. The contract names the outcome. Texts on which the
/// SDK's reader panics are left out.
#[verifier::external_body]
pub(crate) fn parse_script(text: &str) -> (r: Result<Vec<u8>, String>)
    requires
        is_script_text(text@),
    ensures
        result_view(r) == script_of_hex(text@),
{
    bsv::script::LockingScript::from_hex(text).map(|s| s.to_binary()).map_err(|e| e.to_string())
}

// ---------------------------------------------------------------------------------------------
// Transactions
// ---------------------------------------------------------------------------------------------

/// What the client reads of a transaction.
pub struct ParsedTransaction {
    /// Its identifier, or the message of the error.
    pub id: Result<String, String>,
    /// The locking script of each output, as bytes.
    pub scripts: Vec<Vec<u8>>,
}

/// The contents of a `ParsedTransaction`.
#[verifier::ext_equal]
pub struct TransactionModel {
    pub id: Result<Seq<char>, Seq<char>>,
    pub scripts: Seq<Seq<u8>>,
}

impl View for ParsedTransaction {
    type V = TransactionModel;

    open spec fn view(&self) -> TransactionModel {
        TransactionModel { id: result_view(self.id), scripts: views(self.scripts@) }
    }
}

/// The identifier of the transaction in a BEEF, as a hexadecimal text, and its locking scripts:
/// nothing when the BEEF is refused.
pub uninterp spec fn beef_transaction(beef: Seq<char>) -> Option<TransactionModel>;

/// `Transaction::from_beef`, with `id` and the locking scripts of the outputs as plain values.
/// The contract names what is read, claims that bytes which end too early are refused, and says
/// nothing of the message of an error: the SDK lists the legal places of a node in it, in the order
/// of a hash set. Texts on which the SDK's reader panics are left out.
#[verifier::external_body]
pub(crate) fn parse_beef(beef: &str) -> (r: Result<ParsedTransaction, String>)
    requires
        is_hex(beef@),
        !(beef_end(hex_bytes(beef@)) is Stops),
    ensures
        success_view(r) == beef_transaction(beef@),
        beef_end(hex_bytes(beef@)) is Ends ==> r is Err,
{
    bsv::transaction::Transaction::from_beef(beef)
        .map(|tx| ParsedTransaction {
            id: tx.id().map_err(|e| e.to_string()),
            scripts: tx.outputs.iter().map(|o| o.locking_script.to_binary()).collect(),
        })
        .map_err(|e| e.to_string())
}

/// What is signed to spend, with the given scope, an output of `satoshis` under `script` by input
/// `input` of the transaction in a BEEF: nothing when the BEEF is refused or has no such input.
pub uninterp spec fn signed_data(
    beef: Seq<char>,
    input: nat,
    scope: u32,
    satoshis: u64,
    script: Seq<u8>,
) -> Option<Seq<u8>>;

/// `Transaction::sighash_preimage` on the transaction in a BEEF and the script of the given bytes.
/// The contract names what is signed, claims that bytes which end too early are refused, and says
/// nothing of the message of an error, for the reason that `parse_beef` has. Texts and scripts on
/// which the SDK's readers panic are left out.
#[verifier::external_body]
pub(crate) fn preimage(
    beef: &str,
    input: usize,
    scope: u32,
    satoshis: u64,
    script: &Vec<u8>,
) -> (r: Result<Vec<u8>, String>)
    requires
        is_hex(beef@),
        !(beef_end(hex_bytes(beef@)) is Stops),
        is_whole(script@),
    ensures
        success_view(r) == signed_data(beef@, input as nat, scope, satoshis, script@),
        beef_end(hex_bytes(beef@)) is Ends ==> r is Err,
{
    let lock = bsv::script::LockingScript::from_binary(script);
    bsv::transaction::Transaction::from_beef(beef)
        .and_then(|tx| tx.sighash_preimage(input, scope, satoshis, &lock))
        .map_err(|e| e.to_string())
}

// ---------------------------------------------------------------------------------------------
// The wallet that everyone has
// ---------------------------------------------------------------------------------------------

/// The key that the wallet with the private key one derives for a protocol, a key identifier and
/// a counterparty, in compressed hexadecimal notation, or the message of the error.
pub uninterp spec fn anyone_key(
    level: u8,
    protocol: Seq<char>,
    key_id: Seq<char>,
    counterparty: Seq<char>,
) -> Result<Seq<char>, Seq<char>>;

/// `ProtoWallet::anyone` and `get_public_key_sync` for a derived key. The contract names the
/// outcome.
#[verifier::external_body]
pub(crate) fn derive_anyone_key(level: u8, protocol: &str, key_id: &str, counterparty: &str) -> (r:
    Result<String, String>)
    requires
        is_ascii(counterparty),
    ensures
        result_view(r) == anyone_key(level, protocol@, key_id@, counterparty@),
{
    let key = bsv::primitives::public_key::PublicKey::from_string(counterparty)
        .map_err(|e| e.to_string())?;
    let other = Counterparty { counterparty_type: CounterpartyType::Other, public_key: Some(key) };
    let name = Protocol { security_level: level, protocol: protocol.to_string() };
    bsv::wallet::proto_wallet::ProtoWallet::anyone()
        .get_public_key_sync(&name, key_id, &other, false, false)
        .map(|k| k.to_der_hex())
        .map_err(|e| e.to_string())
}

/// The identity key of the wallet with the private key one: the base point of the curve.
pub open spec fn anyone_identity_text() -> Seq<char> {
    "0279be667ef9dcbbac55a06295ce870b07029bfcdb2dce28d959f2815b16f81798"@
}

/// `ProtoWallet::anyone` and `get_public_key_sync` for the identity key. The contract claims the
/// base point of the curve, in compressed notation, and that asking for it does not fail.
#[verifier::external_body]
pub(crate) fn anyone_identity() -> (r: Result<String, String>)
    ensures
        r is Ok,
        r->Ok_0@ == anyone_identity_text(),
{
    let none = Protocol { security_level: 0, protocol: String::new() };
    bsv::wallet::proto_wallet::ProtoWallet::anyone()
        .get_public_key_sync(&none, "", &Counterparty::default(), false, true)
        .map(|k| k.to_der_hex())
        .map_err(|e| e.to_string())
}

// ---------------------------------------------------------------------------------------------
// Laws
// ---------------------------------------------------------------------------------------------

proof fn hex_pairs_are_read(text: Seq<char>, i: int)
    requires
        is_hex(text),
        0 <= i <= text.len(),
        i % 2 == 0,
    ensures
        pairs_from(vstd::utf8::encode_utf8(text), i) == HexReadingModel::Bytes(
            hex_bytes(text).skip(i / 2),
        ),
    decreases text.len() - i,
{
    let b = vstd::utf8::encode_utf8(text);
    hex_is_ascii(text);
    if i + 1 < text.len() {
        hex_pairs_are_read(text, i + 2);
        assert(is_hex_digit(text[i]) && is_hex_digit(text[i + 1]));
        let x = hex_bytes(text)[i / 2];
        assert(2 * (i / 2) == i);
        assert(digit_value(b[i]) == Some(hex_value(text[i]) as u8));
        assert(digit_value(b[i + 1]) == Some(hex_value(text[i + 1]) as u8));
        assert(pair_value(b[i], b[i + 1]) == Some(x));
        assert(seq![x] + hex_bytes(text).skip(i / 2 + 1) =~= hex_bytes(text).skip(i / 2));
    } else {
        assert(hex_bytes(text).skip(i / 2) =~= Seq::empty());
    }
}

proof fn hex_is_ascii(text: Seq<char>)
    requires
        is_hex(text),
    ensures
        vstd::utf8::encode_utf8(text).len() == text.len(),
        forall|i: int|
            0 <= i < text.len() ==> #[trigger] vstd::utf8::encode_utf8(text)[i] == text[i] as u8
                && text[i] as int <= 0x7f,
{
    assert forall|i: int| 0 <= i < text.len() implies #[trigger] text[i] as int <= 0x7f by {
        assert(is_hex_digit(text[i]));
    }
    assert(vstd::utf8::is_ascii_chars(text));
    vstd::utf8::is_ascii_chars_encode_utf8(text);
}

/// Hexadecimal notation, in either case, is read as the bytes that it stands for.
pub proof fn hexadecimal_notation_is_read(text: Seq<char>)
    requires
        is_hex(text),
    ensures
        hex_reading(text) == HexReadingModel::Bytes(hex_bytes(text)),
{
    hex_is_ascii(text);
    hex_pairs_are_read(text, 0);
    assert(hex_bytes(text).skip(0) =~= hex_bytes(text));
}

/// A script that pays to the hash of a key has twenty-five bytes, which duplicate and hash the key,
/// compare it with the very hash, and check the signature.
pub proof fn payments_are_locked_to_the_hash(hash: Seq<u8>)
    requires
        hash.len() == 20,
    ensures
        key_hash_script(hash).len() == 25,
        key_hash_script(hash).take(3) == seq![0x76u8, 0xa9, 0x14],
        key_hash_script(hash).subrange(3, 23) == hash,
        key_hash_script(hash).skip(23) == seq![0x88u8, 0xac],
        announced(key_hash_script(hash).skip(2)) == Some((20nat, 1int)),
{
    let s = key_hash_script(hash);
    assert(s.take(3) =~= seq![0x76u8, 0xa9, 0x14]);
    assert(s.subrange(3, 23) =~= hash);
    assert(s.skip(23) =~= seq![0x88u8, 0xac]);
}

/// Reading a script steps over a push and its data, whatever the data are.
pub proof fn pushes_are_stepped_over(s: Seq<u8>, p: int, data: Seq<u8>, depth: int)
    requires
        s.len() <= 0x7fff_ffff,
        0 <= p,
        p + data_push(data).len() <= s.len(),
        s.subrange(p, p + data_push(data).len()) == data_push(data),
    ensures
        cut_short(s, p, depth) == cut_short(s, p + data_push(data).len(), depth),
{
    let push = data_push(data);
    let n = push_prefix(data.len()).len() as int;
    let part = s.subrange(p, p + push.len());
    assert(forall|i: int| 0 <= i < n ==> #[trigger] part[i] == s[p + i]);
    assert(forall|i: int| 0 <= i < n ==> #[trigger] push[i] == push_prefix(data.len())[i]);
    assert(part[0] == s[p]);
    if data.len() >= 0x4c {
        assert(part[1] == s[p + 1]);
        if data.len() >= 0x100 {
            assert(part[2] == s[p + 2]);
            let len = data.len();
            if len >= 0x1_0000 {
                assert(part[3] == s[p + 3]);
                assert(part[4] == s[p + 4]);
                assert(len % 0x100 + 0x100 * (len / 0x100 % 0x100) + 0x1_0000 * (len / 0x1_0000
                    % 0x100) + 0x100_0000 * (len / 0x100_0000 % 0x100) == len) by (nonlinear_arith)
                    requires
                        len < 0x1_0000_0000,
                ;
            }
        }
    }
}

proof fn fields_are_stepped_over(s: Seq<u8>, p: int, fields: Seq<Seq<u8>>, depth: int)
    requires
        s.len() <= 0x7fff_ffff,
        0 <= p,
        p + field_pushes(fields).len() <= s.len(),
        s.subrange(p, p + field_pushes(fields).len()) == field_pushes(fields),
    ensures
        cut_short(s, p, depth) == cut_short(s, p + field_pushes(fields).len(), depth),
    decreases fields.len(),
{
    if fields.len() > 0 {
        let rest = fields.drop_last();
        let before = field_pushes(rest);
        let push = data_push(fields.last());
        let all = field_pushes(fields);
        let part = s.subrange(p, p + all.len());
        assert(part.take(before.len() as int) =~= before);
        assert(s.subrange(p, p + before.len()) =~= part.take(before.len() as int));
        fields_are_stepped_over(s, p, rest, depth);
        let q = p + before.len();
        assert(part.skip(before.len() as int) =~= push);
        assert(s.subrange(q, q + push.len()) =~= part.skip(before.len() as int));
        pushes_are_stepped_over(s, q, fields.last(), depth);
    }
}

proof fn drops_are_stepped_over(s: Seq<u8>, p: int)
    requires
        0 <= p <= s.len(),
        forall|i: int| p <= i < s.len() ==> #[trigger] s[i] == 0x6d || s[i] == 0x75,
    ensures
        !cut_short(s, p, 0),
    decreases s.len() - p,
{
    if p < s.len() {
        drops_are_stepped_over(s, p + 1);
    }
}

/// Every script that carries fields can be read to its end, whatever the key and the fields are, as
/// long as it is not too long to be held. So what is advertised can be read.
pub proof fn carrying_scripts_are_whole(key: Seq<u8>, fields: Seq<Seq<u8>>)
    requires
        key.len() == 33,
        push_drop_script(key, fields).len() <= 0x7fff_ffff,
    ensures
        is_whole(push_drop_script(key, fields)),
{
    let s = push_drop_script(key, fields);
    let pushes = field_pushes(fields);
    assert(data_push(key) =~= seq![33u8] + key);
    assert(s.subrange(0, 34) =~= data_push(key));
    pushes_are_stepped_over(s, 0, key, 0);
    assert(s[34] == 0xac);
    assert(cut_short(s, 34, 0) == cut_short(s, 35, 0));
    assert(s.subrange(35, 35int + pushes.len()) =~= pushes);
    fields_are_stepped_over(s, 35, fields, 0);
    let q = 35 + pushes.len() as int;
    assert forall|i: int| q <= i < s.len() implies #[trigger] s[i] == 0x6d || s[i] == 0x75 by {
        assert(s[i] == drops(fields.len())[i - q]);
    }
    drops_are_stepped_over(s, q);
}

} // verus!
