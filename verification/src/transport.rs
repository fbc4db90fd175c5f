//! Radio destination selection for API mode (AP=2).
//!
//! **Unicast:** pass the peer's 64-bit address (XCTU **SH** + **SL**, 16 hex
//! digits) on the command line or via environment:
//!
//! - `--xbee-dest64=0013a20041aeb54e` (also `--XBEE_DEST64=...`, `--xbee-dest64 ...`)
//! - optional `--xbee-dest16=fffe` (default `FFFE`)
//!
//! CLI flags override **`XBEE_DEST64`** / **`XBEE_DEST16`** env vars.
//!
//! **Broadcast:** omit both; the library uses
//! [`crate::api_mode::BROADCAST_ADDR_64`] and [`crate::api_mode::UNKNOWN_ADDR_16`].
//!
//! This module parses those values; reading the process arguments and the
//! environment is the caller's part.

use vstd::prelude::*;

use crate::api_mode::{BROADCAST_ADDR_64, UNKNOWN_ADDR_16};
use crate::text::{
    chars_equal, copy_range, is_whitespace, lemma_trim_without_whitespace, str_chars, trim, trimmed,
};

verus! {

#[verifier::external_type_specification]
#[verifier::external_body]
pub struct ExIoError(std::io::Error);

/// Minimal serial transport contract used by the sender / receiver.
///
/// Implementations carry **RF payload bytes** only. Framing, encoding and
/// AES-GCM live above this layer.
pub trait Transport {
    fn send(&mut self, data: &[u8]) -> std::io::Result<()>;

    fn recv(&mut self, buf: &mut [u8]) -> std::io::Result<usize>;
}

// ---------------------------------------------------------------------------
// Hexadecimal addresses

/// `char::is_ascii_hexdigit`.
pub open spec fn is_hex_digit(c: char) -> bool {
    ('0' <= c && c <= '9') || ('a' <= c && c <= 'f') || ('A' <= c && c <= 'F')
}

/// The value of one hexadecimal digit.
pub open spec fn hex_digit_value(c: char) -> nat {
    if '0' <= c && c <= '9' {
        (c as int - '0' as int) as nat
    } else if 'a' <= c && c <= 'f' {
        (c as int - 'a' as int + 10) as nat
    } else {
        (c as int - 'A' as int + 10) as nat
    }
}

/// The value of a string of hexadecimal digits, most significant first.
pub open spec fn hex_value(digits: Seq<char>) -> nat
    decreases digits.len(),
{
    if digits.len() == 0 {
        0
    } else {
        hex_value(digits.drop_last()) * 16 + hex_digit_value(digits.last())
    }
}

/// `s` without a leading `0x` or `0X`.
pub open spec fn strip_hex_prefix(s: Seq<char>) -> Seq<char> {
    if s.len() >= 2 && s[0] == '0' && (s[1] == 'x' || s[1] == 'X') {
        s.skip(2)
    } else {
        s
    }
}

/// The hexadecimal digits of `s`, in order, with everything else dropped.
pub open spec fn keep_hex_digits(s: Seq<char>) -> Seq<char>
    decreases s.len(),
{
    if s.len() == 0 {
        s
    } else if is_hex_digit(s.last()) {
        keep_hex_digits(s.drop_last()).push(s.last())
    } else {
        keep_hex_digits(s.drop_last())
    }
}

/// The digits an address is read from: the trimmed text without a `0x`
/// prefix, keeping only hexadecimal digits (so `00:13:A2:...` works).
pub open spec fn address_digits(s: Seq<char>) -> Seq<char> {
    keep_hex_digits(strip_hex_prefix(trimmed(s)))
}

/// The address that text stands for, when it has exactly `width` digits.
pub open spec fn parsed_hex(s: Seq<char>, width: nat) -> Option<nat> {
    if address_digits(s).len() == width {
        Some(hex_value(address_digits(s)))
    } else {
        None
    }
}

fn char_is_hex_digit(c: char) -> (r: bool)
    ensures
        r == is_hex_digit(c),
{
    ('0' <= c && c <= '9') || ('a' <= c && c <= 'f') || ('A' <= c && c <= 'F')
}

fn hex_digit(c: char) -> (r: u8)
    requires
        is_hex_digit(c),
    ensures
        r as nat == hex_digit_value(c),
        r < 16,
{
    if '0' <= c && c <= '9' {
        (c as u32 - '0' as u32) as u8
    } else if 'a' <= c && c <= 'f' {
        (c as u32 - 'a' as u32 + 10) as u8
    } else {
        (c as u32 - 'A' as u32 + 10) as u8
    }
}

fn normalize_hex_digits(s: &[char]) -> (r: Vec<char>)
    ensures
        r@ == address_digits(s@),
        forall|i: int| 0 <= i < r@.len() ==> is_hex_digit(#[trigger] r@[i]),
{
    let t = trim(s);
    let n = t.len();
    let start: usize = if n >= 2 && t[0] == '0' && (t[1] == 'x' || t[1] == 'X') {
        2
    } else {
        0
    };
    let ghost stripped = strip_hex_prefix(t@);
    assert(stripped =~= t@.skip(start as int));
    let mut out: Vec<char> = Vec::new();
    let mut i = start;
    while i < n
        invariant
            n == t@.len(),
            start <= i <= n,
            stripped == t@.skip(start as int),
            out@ == keep_hex_digits(stripped.take(i - start)),
            forall|j: int| 0 <= j < out@.len() ==> is_hex_digit(#[trigger] out@[j]),
        decreases n - i,
    {
        let c = t[i];
        assert(stripped.take(i + 1 - start).drop_last() =~= stripped.take(i - start));
        assert(stripped.take(i + 1 - start).last() == c);
        if char_is_hex_digit(c) {
            out.push(c);
        }
        i += 1;
    }
    assert(stripped.take(n - start) =~= stripped);
    out
}

/// `16^n`.
pub open spec fn pow16(n: nat) -> nat
    decreases n,
{
    if n == 0 {
        1
    } else {
        16 * pow16((n - 1) as nat)
    }
}

proof fn lemma_pow16_monotone(a: nat, b: nat)
    requires
        a <= b,
    ensures
        pow16(a) <= pow16(b),
    decreases b,
{
    if a < b {
        lemma_pow16_monotone(a, (b - 1) as nat);
    }
}

proof fn lemma_hex_value_bound(d: Seq<char>)
    requires
        forall|i: int| 0 <= i < d.len() ==> is_hex_digit(#[trigger] d[i]),
    ensures
        hex_value(d) < pow16(d.len()),
    decreases d.len(),
{
    if d.len() > 0 {
        lemma_hex_value_bound(d.drop_last());
        let p = pow16((d.len() - 1) as nat);
        assert(is_hex_digit(d[d.len() - 1]));
        assert(hex_value(d.drop_last()) * 16 + hex_digit_value(d.last()) < p * 16) by (nonlinear_arith)
            requires
                hex_value(d.drop_last()) < p,
                hex_digit_value(d.last()) < 16,
        ;
    }
}

/// Value of hex digits that fit in a `u64`.
fn hex_digits_value(d: &[char]) -> (r: u64)
    requires
        d@.len() <= 16,
        forall|i: int| 0 <= i < d@.len() ==> is_hex_digit(#[trigger] d@[i]),
    ensures
        r as nat == hex_value(d@),
{
    let n = d.len();
    let mut v: u64 = 0;
    proof {
        reveal_with_fuel(pow16, 17);
    }
    assert(pow16(15) * 16 == 0x1_0000_0000_0000_0000);
    for i in 0..n
        invariant
            n == d@.len(),
            n <= 16,
            forall|j: int| 0 <= j < d@.len() ==> is_hex_digit(#[trigger] d@[j]),
            v as nat == hex_value(d@.take(i as int)),
            pow16(15) * 16 == 0x1_0000_0000_0000_0000,
    {
        let ghost pre = d@.take(i as int);
        proof {
            assert(d@.take(i + 1).drop_last() =~= pre);
            assert(forall|j: int| 0 <= j < pre.len() ==> is_hex_digit(#[trigger] pre[j]));
            lemma_hex_value_bound(pre);
            lemma_pow16_monotone(i as nat, 15);
        }
        let dv = hex_digit(d[i]);
        assert(v * 16 + dv < 0x1_0000_0000_0000_0000) by (nonlinear_arith)
            requires
                v < pow16(i as nat),
                pow16(i as nat) <= pow16(15),
                pow16(15) * 16 == 0x1_0000_0000_0000_0000,
                dv < 16,
        ;
        v = v * 16 + dv as u64;
    }
    assert(d@.take(n as int) =~= d@);
    v
}

fn parse_u64_hex_chars(s: &[char]) -> (r: Option<u64>)
    ensures
        match r {
            Some(v) => parsed_hex(s@, 16) == Some(v as nat),
            None => parsed_hex(s@, 16) is None,
        },
{
    let digits = normalize_hex_digits(s);
    if digits.len() != 16 {
        return None;
    }
    Some(hex_digits_value(digits.as_slice()))
}

fn parse_u16_hex_chars(s: &[char]) -> (r: Option<u16>)
    ensures
        match r {
            Some(v) => parsed_hex(s@, 4) == Some(v as nat),
            None => parsed_hex(s@, 4) is None,
        },
{
    let digits = normalize_hex_digits(s);
    if digits.len() != 4 {
        return None;
    }
    let v = hex_digits_value(digits.as_slice());
    proof {
        lemma_hex_value_bound(digits@);
        reveal_with_fuel(pow16, 5);
    }
    Some(v as u16)
}

/// Parse a 64-bit address: exactly 16 hex digits (XCTU SH + SL), ignoring
/// surrounding whitespace, a `0x` prefix and separators.
pub fn parse_u64_hex(s: &str) -> (r: Option<u64>)
    ensures
        match r {
            Some(v) => parsed_hex(s@, 16) == Some(v as nat),
            None => parsed_hex(s@, 16) is None,
        },
        s@.len() == 16 && all_ascii_hex(s@) ==> r == Some(base16_number(s@) as u64),
{
    proof {
        if s@.len() == 16 && all_ascii_hex(s@) {
            lemma_plain_hex_text_parses(s@, 16);
        }
    }
    let chars = str_chars(s);
    parse_u64_hex_chars(chars.as_slice())
}

/// Parse a 16-bit address: exactly 4 hex digits.
pub fn parse_u16_hex(s: &str) -> (r: Option<u16>)
    ensures
        match r {
            Some(v) => parsed_hex(s@, 4) == Some(v as nat),
            None => parsed_hex(s@, 4) is None,
        },
        s@.len() == 4 && all_ascii_hex(s@) ==> r == Some(base16_number(s@) as u16),
{
    proof {
        if s@.len() == 4 && all_ascii_hex(s@) {
            lemma_plain_hex_text_parses(s@, 4);
        }
    }
    let chars = str_chars(s);
    parse_u16_hex_chars(chars.as_slice())
}

// ---------------------------------------------------------------------------
// Hexadecimal digits by their character codes

/// The value of an ASCII hexadecimal digit, read off its character code:
/// `0`-`9` (0x30-0x39), `A`-`F` (0x41-0x46) and `a`-`f` (0x61-0x66).
pub open spec fn ascii_hex_digit(c: char) -> Option<nat> {
    let k = c as u32;
    if 0x30 <= k && k <= 0x39 {
        Some((k - 0x30) as nat)
    } else if 0x41 <= k && k <= 0x46 {
        Some((k - 0x41 + 10) as nat)
    } else if 0x61 <= k && k <= 0x66 {
        Some((k - 0x61 + 10) as nat)
    } else {
        None
    }
}

/// Whether every character of `s` is an ASCII hexadecimal digit.
pub open spec fn all_ascii_hex(s: Seq<char>) -> bool {
    forall|i: int| 0 <= i < s.len() ==> #[trigger] ascii_hex_digit(s[i]) is Some
}

/// The number a string of ASCII hexadecimal digits writes in base 16.
pub open spec fn base16_number(s: Seq<char>) -> nat
    decreases s.len(),
{
    if s.len() == 0 {
        0
    } else {
        base16_number(s.drop_last()) * 16 + ascii_hex_digit(s.last())->0
    }
}

/// The digits an address is read from are exactly the ASCII hexadecimal
/// digits (`char::is_ascii_hexdigit`), each with its base-16 value.
pub proof fn lemma_hex_digits_are_ascii_hexdigits(c: char)
    ensures
        is_hex_digit(c) <==> ascii_hex_digit(c) is Some,
        is_hex_digit(c) ==> hex_digit_value(c) == ascii_hex_digit(c)->0,
{
}

proof fn lemma_keep_all_hex(s: Seq<char>)
    requires
        all_ascii_hex(s),
    ensures
        keep_hex_digits(s) == s,
        hex_value(s) == base16_number(s),
    decreases s.len(),
{
    if s.len() > 0 {
        let t = s.drop_last();
        assert forall|i: int| 0 <= i < t.len() implies #[trigger] ascii_hex_digit(t[i]) is Some by {
            assert(t[i] == s[i]);
        }
        lemma_keep_all_hex(t);
        assert(ascii_hex_digit(s[s.len() - 1]) is Some);
        lemma_hex_digits_are_ascii_hexdigits(s.last());
        assert(t.push(s.last()) =~= s);
    }
}

/// Text made of exactly `width` ASCII hexadecimal digits is read as the
/// number those digits write in base 16.
pub proof fn lemma_plain_hex_text_parses(s: Seq<char>, width: nat)
    requires
        s.len() == width,
        all_ascii_hex(s),
    ensures
        parsed_hex(s, width) == Some(base16_number(s)),
{
    assert forall|i: int| 0 <= i < s.len() implies !is_whitespace(#[trigger] s[i]) by {
        assert(ascii_hex_digit(s[i]) is Some);
    }
    lemma_trim_without_whitespace(s);
    if s.len() >= 2 {
        assert(ascii_hex_digit(s[1]) is Some);
    }
    assert(strip_hex_prefix(s) == s);
    lemma_keep_all_hex(s);
}

// ---------------------------------------------------------------------------
// Command-line flags

#[derive(Debug, Clone, Copy, PartialEq, Eq)]
enum CliDest64 {
    Unset,
    Value(u64),
}

#[derive(Debug, Clone, Copy, PartialEq, Eq)]
enum CliDest16 {
    Unset,
    Value(u16),
}

#[derive(Debug)]
struct CliDestination {
    dest64: CliDest64,
    dest16: CliDest16,
}

/// A destination flag whose value is not an address.
#[derive(Debug, PartialEq, Eq)]
pub enum DestinationError {
    /// `--xbee-dest64` was given something other than 16 hex digits.
    InvalidDest64(Vec<char>),
    /// `--xbee-dest16` was given something other than 4 hex digits.
    InvalidDest16(Vec<char>),
}

/// A [`DestinationError`] as plain values.
pub enum DestinationErrorView {
    InvalidDest64(Seq<char>),
    InvalidDest16(Seq<char>),
}

impl View for DestinationError {
    type V = DestinationErrorView;

    open spec fn view(&self) -> DestinationErrorView {
        match self {
            DestinationError::InvalidDest64(v) => DestinationErrorView::InvalidDest64(v@),
            DestinationError::InvalidDest16(v) => DestinationErrorView::InvalidDest16(v@),
        }
    }
}

/// Destination addresses given on the command line, as plain values.
pub struct CliView {
    pub dest64: Option<u64>,
    pub dest16: Option<u16>,
}

/// `str::trim_start_matches('-')`.
pub open spec fn strip_dashes(s: Seq<char>) -> Seq<char>
    decreases s.len(),
{
    if s.len() > 0 && s[0] == '-' {
        strip_dashes(s.drop_first())
    } else {
        s
    }
}

/// One character of a normalized flag name: `-` becomes `_`, ASCII letters
/// become lower case.
pub open spec fn flag_char(c: char) -> char {
    if c == '-' {
        '_'
    } else if 'A' <= c && c <= 'Z' {
        (c as u32 + 32) as char
    } else {
        c
    }
}

/// A flag name without surrounding whitespace and leading dashes, with `-`
/// replaced by `_`, in ASCII lower case.
pub open spec fn normalized_flag_key(key: Seq<char>) -> Seq<char> {
    strip_dashes(trimmed(key)).map_values(|c: char| flag_char(c))
}

/// `xbee_dest64`.
pub open spec fn dest64_key() -> Seq<char> {
    seq!['x', 'b', 'e', 'e', '_', 'd', 'e', 's', 't', '6', '4']
}

/// `xbee_dest16`.
pub open spec fn dest16_key() -> Seq<char> {
    seq!['x', 'b', 'e', 'e', '_', 'd', 'e', 's', 't', '1', '6']
}

/// Whether `s` starts with `--`.
pub open spec fn is_long_flag(s: Seq<char>) -> bool {
    s.len() >= 2 && s[0] == '-' && s[1] == '-'
}

/// Index of the first `=` in `s`, if any.
pub open spec fn first_equals(s: Seq<char>) -> Option<int> {
    if exists|i: int| 0 <= i < s.len() && s[i] == '=' {
        Some(choose|i: int| 0 <= i < s.len() && s[i] == '=' && forall|j: int| 0 <= j < i ==> s[j] != '=')
    } else {
        None
    }
}

/// `--key=value`, split at the first `=`.
pub open spec fn split_long_flag_spec(arg: Seq<char>) -> Option<(Seq<char>, Seq<char>)> {
    let a = trimmed(arg);
    if !is_long_flag(a) {
        None
    } else {
        let rest = a.skip(2);
        match first_equals(rest) {
            Some(k) => Some((rest.take(k), rest.skip(k + 1))),
            None => None,
        }
    }
}

/// `--key` with no `=`: the value is the next argument.
pub open spec fn long_flag_name_spec(arg: Seq<char>) -> Option<Seq<char>> {
    let a = trimmed(arg);
    if !is_long_flag(a) || first_equals(a) is Some {
        None
    } else {
        Some(a.skip(2))
    }
}

/// Effect of one `key`/`value` pair on the flags read so far.
pub open spec fn apply_flag_spec(acc: CliView, key: Seq<char>, value: Seq<char>) -> Result<
    CliView,
    DestinationErrorView,
> {
    let k = normalized_flag_key(key);
    if k == dest64_key() {
        match parsed_hex(value, 16) {
            Some(v) => Ok(CliView { dest64: Some(v as u64), ..acc }),
            None => Err(DestinationErrorView::InvalidDest64(value)),
        }
    } else if k == dest16_key() {
        match parsed_hex(value, 4) {
            Some(v) => Ok(CliView { dest16: Some(v as u16), ..acc }),
            None => Err(DestinationErrorView::InvalidDest16(value)),
        }
    } else {
        Ok(acc)
    }
}

/// Reading the arguments from index `i` on (index 0 is the program name).
pub open spec fn cli_from(args: Seq<Seq<char>>, i: int, acc: CliView) -> Result<
    CliView,
    DestinationErrorView,
>
    decreases args.len() - i,
{
    if i < 0 || i >= args.len() {
        Ok(acc)
    } else {
        match split_long_flag_spec(args[i]) {
            Some((k, v)) => match apply_flag_spec(acc, k, v) {
                Ok(a2) => cli_from(args, i + 1, a2),
                Err(e) => Err(e),
            },
            None => match long_flag_name_spec(args[i]) {
                Some(k) => if i + 1 < args.len() {
                    match apply_flag_spec(acc, k, args[i + 1]) {
                        Ok(a2) => cli_from(args, i + 2, a2),
                        Err(e) => Err(e),
                    }
                } else {
                    Ok(acc)
                },
                None => cli_from(args, i + 1, acc),
            },
        }
    }
}

/// The arguments as character sequences.
pub open spec fn args_view(args: Seq<String>) -> Seq<Seq<char>> {
    args.map_values(|s: String| s@)
}

/// The destination flags found in the arguments (skipping the program name).
pub open spec fn cli_destination(args: Seq<Seq<char>>) -> Result<CliView, DestinationErrorView> {
    cli_from(args, 1, CliView { dest64: None, dest16: None })
}

/// An environment value read as an address of `width` digits.
pub open spec fn env_address(env: Option<Seq<char>>, width: nat) -> Option<nat> {
    match env {
        Some(s) => parsed_hex(s, width),
        None => None,
    }
}

/// The destination from the environment values alone, falling back to
/// broadcast.
pub open spec fn env_destination(env_dest64: Option<Seq<char>>, env_dest16: Option<Seq<char>>) -> (u64, u16) {
    (
        match env_address(env_dest64, 16) {
            Some(v) => v as u64,
            None => BROADCAST_ADDR_64,
        },
        match env_address(env_dest16, 4) {
            Some(v) => v as u16,
            None => UNKNOWN_ADDR_16,
        },
    )
}

/// The destination: command-line flags first, then the environment, else
/// broadcast.
pub open spec fn destination(
    args: Seq<Seq<char>>,
    env_dest64: Option<Seq<char>>,
    env_dest16: Option<Seq<char>>,
) -> Result<(u64, u16), DestinationErrorView> {
    match cli_destination(args) {
        Err(e) => Err(e),
        Ok(cli) => Ok(
            (
                match cli.dest64 {
                    Some(v) => v,
                    None => env_destination(env_dest64, env_dest16).0,
                },
                match cli.dest16 {
                    Some(v) => v,
                    None => env_destination(env_dest64, env_dest16).1,
                },
            ),
        ),
    }
}

/// Command-line flags override the environment: for the same arguments,
/// each address given by a flag is the resolved one whatever the
/// `XBEE_DEST64` / `XBEE_DEST16` values, and the environment only fills in
/// an address no flag gave.
pub proof fn lemma_cli_overrides_env(
    args: Seq<Seq<char>>,
    env_dest64: Option<Seq<char>>,
    env_dest16: Option<Seq<char>>,
)
    ensures
        match cli_destination(args) {
            Err(e) => destination(args, env_dest64, env_dest16) == Err::<(u64, u16), DestinationErrorView>(e),
            Ok(cli) => {
                &&& destination(args, env_dest64, env_dest16) is Ok
                &&& cli.dest64 matches Some(v) ==> destination(args, env_dest64, env_dest16)->Ok_0.0 == v
                &&& cli.dest16 matches Some(v) ==> destination(args, env_dest64, env_dest16)->Ok_0.1 == v
                &&& cli.dest64 is None ==> destination(args, env_dest64, env_dest16)->Ok_0.0
                    == env_destination(env_dest64, env_dest16).0
                &&& cli.dest16 is None ==> destination(args, env_dest64, env_dest16)->Ok_0.1
                    == env_destination(env_dest64, env_dest16).1
            },
        },
{
}

/// The optional text of an environment value as characters.
pub open spec fn opt_view(s: Option<&str>) -> Option<Seq<char>> {
    match s {
        Some(t) => Some(t@),
        None => None,
    }
}

/// Flags read so far, as plain values.
spec fn cli_view(c: CliDestination) -> CliView {
    CliView {
        dest64: match c.dest64 {
            CliDest64::Value(v) => Some(v),
            CliDest64::Unset => None,
        },
        dest16: match c.dest16 {
            CliDest16::Value(v) => Some(v),
            CliDest16::Unset => None,
        },
    }
}

fn normalize_flag_key(key: &[char]) -> (r: Vec<char>)
    ensures
        r@ == normalized_flag_key(key@),
{
    let t = trim(key);
    let n = t.len();
    let mut i: usize = 0;
    assert(t@.skip(0) =~= t@);
    while i < n && t[i] == '-'
        invariant
            n == t@.len(),
            0 <= i <= n,
            strip_dashes(t@) == strip_dashes(t@.skip(i as int)),
        decreases n - i,
    {
        assert(t@.skip(i as int).drop_first() =~= t@.skip(i + 1));
        i += 1;
    }
    let ghost rest = t@.skip(i as int);
    assert(strip_dashes(rest) == rest);
    let mut out: Vec<char> = Vec::new();
    let mut k = i;
    while k < n
        invariant
            n == t@.len(),
            i <= k <= n,
            rest == t@.skip(i as int),
            out@ == rest.take(k - i).map_values(|c: char| flag_char(c)),
        decreases n - k,
    {
        let c = t[k];
        let m = if c == '-' {
            '_'
        } else if 'A' <= c && c <= 'Z' {
            ((c as u8) + 32) as char
        } else {
            c
        };
        assert(m == flag_char(c));
        out.push(m);
        assert(out@ =~= rest.take(k + 1 - i).map_values(|c: char| flag_char(c)));
        k += 1;
    }
    assert(rest.take(n - i) =~= rest);
    out
}

fn find_equals(s: &[char]) -> (r: Option<usize>)
    ensures
        match r {
            Some(k) => first_equals(s@) == Some(k as int) && k < s@.len(),
            None => first_equals(s@) is None,
        },
{
    let n = s.len();
    for i in 0..n
        invariant
            n == s@.len(),
            forall|j: int| 0 <= j < i ==> s@[j] != '=',
    {
        if s[i] == '=' {
            proof {
                let k = choose|k: int| 0 <= k < s@.len() && s@[k] == '=' && forall|j: int| 0 <= j < k ==> s@[j] != '=';
                assert(k == i as int) by {
                    if k < i {
                        assert(s@[k] != '=');
                    } else if k > i {
                        assert(s@[i as int] == '=');
                    }
                }
            }
            return Some(i);
        }
    }
    None
}

fn split_long_flag(arg: &[char]) -> (r: Option<(Vec<char>, Vec<char>)>)
    ensures
        match r {
            Some((k, v)) => split_long_flag_spec(arg@) == Some((k@, v@)),
            None => split_long_flag_spec(arg@) is None,
        },
{
    let a = trim(arg);
    if !(a.len() >= 2 && a[0] == '-' && a[1] == '-') {
        return None;
    }
    let rest = copy_range(a.as_slice(), 2, a.len());
    assert(rest@ =~= a@.skip(2));
    match find_equals(rest.as_slice()) {
        Some(k) => {
            let key = copy_range(rest.as_slice(), 0, k);
            let value = copy_range(rest.as_slice(), k + 1, rest.len());
            assert(key@ =~= rest@.take(k as int));
            assert(value@ =~= rest@.skip(k + 1));
            Some((key, value))
        },
        None => None,
    }
}

fn long_flag_name_only(arg: &[char]) -> (r: Option<Vec<char>>)
    ensures
        match r {
            Some(k) => long_flag_name_spec(arg@) == Some(k@),
            None => long_flag_name_spec(arg@) is None,
        },
{
    let a = trim(arg);
    if !(a.len() >= 2 && a[0] == '-' && a[1] == '-') || find_equals(a.as_slice()).is_some() {
        return None;
    }
    let name = copy_range(a.as_slice(), 2, a.len());
    assert(name@ =~= a@.skip(2));
    Some(name)
}

fn apply_cli_flag(out: &mut CliDestination, key: &[char], value: &[char]) -> (r: Result<(), DestinationError>)
    ensures
        match r {
            Ok(()) => apply_flag_spec(cli_view(*old(out)), key@, value@) == Ok::<CliView, DestinationErrorView>(cli_view(*final(out))),
            Err(e) => apply_flag_spec(cli_view(*old(out)), key@, value@) == Err::<CliView, DestinationErrorView>(e@),
        },
{
    let k = normalize_flag_key(key);
    let dest64 = ['x', 'b', 'e', 'e', '_', 'd', 'e', 's', 't', '6', '4'];
    let dest16 = ['x', 'b', 'e', 'e', '_', 'd', 'e', 's', 't', '1', '6'];
    assert(dest64@ =~= dest64_key());
    assert(dest16@ =~= dest16_key());
    if chars_equal(k.as_slice(), &dest64) {
        match parse_u64_hex_chars(value) {
            Some(v) => {
                out.dest64 = CliDest64::Value(v);
                Ok(())
            },
            None => {
                let v = copy_range(value, 0, value.len());
                assert(v@ =~= value@);
                Err(DestinationError::InvalidDest64(v))
            },
        }
    } else if chars_equal(k.as_slice(), &dest16) {
        match parse_u16_hex_chars(value) {
            Some(v) => {
                out.dest16 = CliDest16::Value(v);
                Ok(())
            },
            None => {
                let v = copy_range(value, 0, value.len());
                assert(v@ =~= value@);
                Err(DestinationError::InvalidDest16(v))
            },
        }
    } else {
        Ok(())
    }
}

/// Reads the flag at `args[i]` (and its value, when it is the next argument).
fn cli_step(args: &[String], i: usize, out: &mut CliDestination) -> (r: Result<usize, DestinationError>)
    requires
        1 <= i < args@.len(),
    ensures
        match r {
            Ok(j) => i < j <= args@.len() && cli_from(args_view(args@), i as int, cli_view(*old(out)))
                == cli_from(args_view(args@), j as int, cli_view(*final(out))),
            Err(e) => cli_from(args_view(args@), i as int, cli_view(*old(out))) == Err::<
                CliView,
                DestinationErrorView,
            >(e@),
        },
{
    let ghost av = args_view(args@);
    let n = args.len();
    let arg = str_chars(args[i].as_str());
    assert(arg@ == av[i as int]);
    match split_long_flag(arg.as_slice()) {
        Some((key, value)) => {
            match apply_cli_flag(out, key.as_slice(), value.as_slice()) {
                Ok(()) => {},
                Err(e) => {
                    return Err(e);
                },
            }
            return Ok(i + 1);
        },
        None => {},
    }
    match long_flag_name_only(arg.as_slice()) {
        Some(key) => {
            if i + 1 < n {
                let value = str_chars(args[i + 1].as_str());
                assert(value@ == av[i + 1]);
                match apply_cli_flag(out, key.as_slice(), value.as_slice()) {
                    Ok(()) => {},
                    Err(e) => {
                        return Err(e);
                    },
                }
                Ok(i + 2)
            } else {
                assert(cli_from(av, n as int, cli_view(*out)) == Ok::<CliView, DestinationErrorView>(cli_view(*out)));
                Ok(n)
            }
        },
        None => Ok(i + 1),
    }
}

fn parse_cli_destination(args: &[String]) -> (r: Result<CliDestination, DestinationError>)
    ensures
        match r {
            Ok(c) => cli_destination(args_view(args@)) == Ok::<CliView, DestinationErrorView>(
                cli_view(c),
            ),
            Err(e) => cli_destination(args_view(args@)) == Err::<CliView, DestinationErrorView>(
                e@,
            ),
        },
{
    let ghost av = args_view(args@);
    let mut out = CliDestination { dest64: CliDest64::Unset, dest16: CliDest16::Unset };
    let n = args.len();
    let mut i: usize = 1;
    while i < n
        invariant
            n == args@.len(),
            av == args_view(args@),
            1 <= i,
            cli_destination(av) == cli_from(av, i as int, cli_view(out)),
        decreases n - i,
    {
        i = match cli_step(args, i, &mut out) {
            Ok(j) => j,
            Err(e) => {
                return Err(e);
            },
        };
    }
    Ok(out)
}

fn env_u64(env: Option<&str>) -> (r: Option<u64>)
    ensures
        match r {
            Some(v) => env_address(opt_view(env), 16) == Some(v as nat),
            None => env_address(opt_view(env), 16) is None,
        },
{
    match env {
        Some(s) => parse_u64_hex(s),
        None => None,
    }
}

fn env_u16(env: Option<&str>) -> (r: Option<u16>)
    ensures
        match r {
            Some(v) => env_address(opt_view(env), 4) == Some(v as nat),
            None => env_address(opt_view(env), 4) is None,
        },
{
    match env {
        Some(s) => parse_u16_hex(s),
        None => None,
    }
}

/// Resolve the RF destination from explicit arguments (`args[0]` is the
/// program name) and the values of the `XBEE_DEST64` / `XBEE_DEST16`
/// environment variables: **CLI flags first**, then the environment, else
/// broadcast. A flag with an invalid value is an error.
pub fn xbee_destination_from_args(
    args: &[String],
    env_dest64: Option<&str>,
    env_dest16: Option<&str>,
) -> (r: Result<(u64, u16), DestinationError>)
    ensures
        match r {
            Ok(d) => destination(args_view(args@), opt_view(env_dest64), opt_view(env_dest16)) == Ok::<(u64, u16), DestinationErrorView>(d),
            Err(e) => destination(args_view(args@), opt_view(env_dest64), opt_view(env_dest16)) == Err::<(u64, u16), DestinationErrorView>(e@),
        },
{
    let cli = match parse_cli_destination(args) {
        Ok(c) => c,
        Err(e) => {
            return Err(e);
        },
    };
    let (env64, env16) = xbee_destination_from_env(env_dest64, env_dest16);
    let d64 = match cli.dest64 {
        CliDest64::Value(v) => v,
        CliDest64::Unset => env64,
    };
    let d16 = match cli.dest16 {
        CliDest16::Value(v) => v,
        CliDest16::Unset => env16,
    };
    Ok((d64, d16))
}

/// Destination addresses from the values of the **`XBEE_DEST64`** /
/// **`XBEE_DEST16`** environment variables only, falling back to broadcast.
pub fn xbee_destination_from_env(env_dest64: Option<&str>, env_dest16: Option<&str>) -> (r: (u64, u16))
    ensures
        r == env_destination(opt_view(env_dest64), opt_view(env_dest16)),
{
    let d64 = match env_u64(env_dest64) {
        Some(v) => v,
        None => BROADCAST_ADDR_64,
    };
    let d16 = match env_u16(env_dest16) {
        Some(v) => v,
        None => UNKNOWN_ADDR_16,
    };
    (d64, d16)
}

} // verus!
