//! Bandwidth throttling settings, read from text such as `"10kiB,10MB"`.
use crate::text::{
    chars_of, decimal_text, decimal_value, is_decimal, leading_digits, seqs_of, split_chars, split_on,
    string_of, trim_chars, trimmed,
};
use std::str::FromStr;
use vstd::prelude::*;

verus! {

/// What `bytesize::ByteSize::from_str` gives for `text`: the number of bytes, or the
/// message of its error.
pub uninterp spec fn parsed_byte_size(text: Seq<char>) -> Result<u64, Seq<char>>;

/// Whether `c` is the ASCII letter `l` (given in lower case) written in either case.
pub open spec fn letter_is(c: char, l: char) -> bool {
    c == l || (c as u32) + 32 == (l as u32)
}

/// The factor of a decimal unit prefix `k`, `m`, `g`, `t`, `p` or `e`, in either case.
pub open spec fn decimal_factor(c: char) -> Option<u64> {
    if letter_is(c, 'k') {
        Some(1_000)
    } else if letter_is(c, 'm') {
        Some(1_000_000)
    } else if letter_is(c, 'g') {
        Some(1_000_000_000)
    } else if letter_is(c, 't') {
        Some(1_000_000_000_000)
    } else if letter_is(c, 'p') {
        Some(1_000_000_000_000_000)
    } else if letter_is(c, 'e') {
        Some(1_000_000_000_000_000_000)
    } else {
        None
    }
}

/// The factor of a binary unit prefix `k`, `m`, `g`, `t`, `p` or `e` (as in `KiB`), in
/// either case.
pub open spec fn binary_factor(c: char) -> Option<u64> {
    if letter_is(c, 'k') {
        Some(1_024)
    } else if letter_is(c, 'm') {
        Some(1_048_576)
    } else if letter_is(c, 'g') {
        Some(1_073_741_824)
    } else if letter_is(c, 't') {
        Some(1_099_511_627_776)
    } else if letter_is(c, 'p') {
        Some(1_125_899_906_842_624)
    } else if letter_is(c, 'e') {
        Some(1_152_921_504_606_846_976)
    } else {
        None
    }
}

/// The number of bytes that the unit `u` stands for, in the byte-size parser's unit table
/// (letters in either case): `B`; `K`/`KB` up to `E`/`EB` in powers of 1000; `Ki`/`KiB` up
/// to `Ei`/`EiB` in powers of 1024. Any other text is no unit.
pub open spec fn unit_factor(u: Seq<char>) -> Option<u64> {
    if u.len() == 1 {
        if letter_is(u[0], 'b') {
            Some(1)
        } else {
            decimal_factor(u[0])
        }
    } else if u.len() == 2 {
        if letter_is(u[1], 'b') {
            decimal_factor(u[0])
        } else if letter_is(u[1], 'i') {
            binary_factor(u[0])
        } else {
            None
        }
    } else if u.len() == 3 && letter_is(u[1], 'i') && letter_is(u[2], 'b') {
        binary_factor(u[0])
    } else {
        None
    }
}

/// `v` times `f`, or the largest `u64` when the product does not fit.
pub open spec fn scaled(v: nat, f: u64) -> u64 {
    if v * f <= u64::MAX {
        (v * f) as u64
    } else {
        u64::MAX
    }
}

/// The size that `text` gives when it is a run of digits whose value fits in 64 bits
/// followed directly by a unit: the value times the unit's factor, saturating. Any other
/// text gives nothing here.
pub open spec fn unit_size(text: Seq<char>) -> Option<u64> {
    let k = leading_digits(text) as int;
    let v = decimal_value(text.take(k));
    match unit_factor(text.skip(k)) {
        Some(f) => if k > 0 && v <= u64::MAX {
            Some(scaled(v, f))
        } else {
            None
        },
        None => None,
    }
}

/// Calls `bytesize::ByteSize::from_str` and hands back the byte count (or the error
/// message). The result is tied to the name `parsed_byte_size`; beyond that the contract
/// states two cases. The parser first reads its text as a `u64`, so a plain decimal number
/// that fits in 64 bits is that many bytes. Otherwise it takes the leading digits as the
/// number and the rest as the unit: digits that fit in 64 bits followed directly by a unit
/// of its table give the number times the unit's factor, saturating. What fractions, spaces
/// and errors give is left to the name.
#[verifier::external_body]
fn parse_byte_size(text: &str) -> (res: Result<u64, String>)
    ensures
        match res {
            Ok(n) => parsed_byte_size(text@) == Ok::<u64, Seq<char>>(n),
            Err(m) => parsed_byte_size(text@) == Err::<u64, Seq<char>>(m@),
        },
        fits_decimal(text@) ==> (res == Ok::<u64, String>(decimal_value(text@) as u64)),
        unit_size(text@) is Some ==> (res == Ok::<u64, String>(unit_size(text@)->Some_0)),
{
    match bytesize::ByteSize::from_str(text) {
        Ok(size) => Ok(size.as_u64()),
        Err(message) => Err(message),
    }
}

/// Throttling parameters: the bandwidth in bytes per second and the burst size in bytes.
#[derive(Debug, Clone, Copy, PartialEq, Eq, Hash, Structural)]
pub struct Throttle {
    pub bandwidth: u32,
    pub burst: u32,
}

/// Why a throttle setting could not be read.
#[derive(Debug, PartialEq, Eq)]
pub enum ThrottleError {
    /// A piece is no byte size; the message is that of the byte-size parser.
    InvalidSize(String),
    /// A byte size does not fit in 32 bits.
    OutOfRange,
    /// No second, comma-separated piece was given.
    NoBurst,
}

/// A throttle error as plain values.
pub enum ThrottleFault {
    InvalidSize(Seq<char>),
    OutOfRange,
    NoBurst,
}

/// The plain form of a throttle error.
pub open spec fn fault_of(e: ThrottleError) -> ThrottleFault {
    match e {
        ThrottleError::InvalidSize(m) => ThrottleFault::InvalidSize(m@),
        ThrottleError::OutOfRange => ThrottleFault::OutOfRange,
        ThrottleError::NoBurst => ThrottleFault::NoBurst,
    }
}

/// Whether `text` is a plain decimal number that fits in 64 bits.
pub open spec fn fits_decimal(text: Seq<char>) -> bool {
    is_decimal(text) && decimal_value(text) <= u64::MAX
}

/// What the byte-size parser gives for `text`: a plain decimal number that fits in 64 bits
/// is that many bytes, digits followed by a unit are the number times the unit's factor,
/// and any other text goes by `parsed_byte_size`.
pub open spec fn byte_size_of(text: Seq<char>) -> Result<u64, Seq<char>> {
    if fits_decimal(text) {
        Ok(decimal_value(text) as u64)
    } else if unit_size(text) is Some {
        Ok(unit_size(text)->Some_0)
    } else {
        parsed_byte_size(text)
    }
}

/// The size that one comma-separated piece gives, once trimmed and parsed.
pub open spec fn piece_size(piece: Seq<char>) -> Result<u32, ThrottleFault> {
    size_of_parsed(byte_size_of(trimmed(piece)))
}

/// The throttle that `text` describes: the first comma-separated piece is the bandwidth,
/// the second the burst; further pieces are ignored. The first piece is read before the
/// second is looked for.
pub open spec fn throttle_of(text: Seq<char>) -> Result<(u32, u32), ThrottleFault> {
    let pieces = split_on(text, ',');
    match piece_size(pieces[0]) {
        Err(e) => Err(e),
        Ok(bandwidth) => if pieces.len() < 2 {
            Err(ThrottleFault::NoBurst)
        } else {
            match piece_size(pieces[1]) {
                Err(e) => Err(e),
                Ok(burst) => Ok((bandwidth, burst)),
            }
        },
    }
}

/// The size of a piece, given what the byte-size parser gave for it.
pub open spec fn size_of_parsed(parsed: Result<u64, Seq<char>>) -> Result<u32, ThrottleFault> {
    match parsed {
        Ok(n) => if n <= u32::MAX {
            Ok(n as u32)
        } else {
            Err(ThrottleFault::OutOfRange)
        },
        Err(m) => Err(ThrottleFault::InvalidSize(m)),
    }
}

/// The plain form of what the byte-size parser hands back.
pub open spec fn parsed_view(parsed: Result<u64, String>) -> Result<u64, Seq<char>> {
    match parsed {
        Ok(n) => Ok(n),
        Err(m) => Err(m@),
    }
}

/// Turns what the byte-size parser gave for a piece into the piece's size: a count that
/// fits in 32 bits is kept, a larger one is `OutOfRange`, and a parser error is
/// `InvalidSize` with the parser's message.
pub fn size_from(parsed: Result<u64, String>) -> (res: Result<u32, ThrottleError>)
    ensures
        match res {
            Ok(n) => size_of_parsed(parsed_view(parsed)) == Ok::<u32, ThrottleFault>(n),
            Err(e) => size_of_parsed(parsed_view(parsed)) == Err::<u32, ThrottleFault>(fault_of(e)),
        },
{
    match parsed {
        Ok(n) => {
            if n <= 0xffff_ffffu64 {
                Ok(n as u32)
            } else {
                Err(ThrottleError::OutOfRange)
            }
        },
        Err(message) => Err(ThrottleError::InvalidSize(message)),
    }
}

/// Reads one piece as a byte size that fits in 32 bits.
fn read_piece(piece: &Vec<char>) -> (res: Result<u32, ThrottleError>)
    ensures
        match res {
            Ok(n) => piece_size(piece@) == Ok::<u32, ThrottleFault>(n),
            Err(e) => piece_size(piece@) == Err::<u32, ThrottleFault>(fault_of(e)),
        },
{
    let text = string_of(&trim_chars(piece));
    let parsed = parse_byte_size(text.as_str());
    assert(parsed_view(parsed) == byte_size_of(text@));
    size_from(parsed)
}

impl Throttle {
    /// Reads a throttle from text such as `"10kiB,10MB"`: bandwidth, then burst.
    pub fn parse(s: &str) -> (res: Result<Throttle, ThrottleError>)
        ensures
            match res {
                Ok(t) => throttle_of(s@) == Ok::<(u32, u32), ThrottleFault>((t.bandwidth, t.burst)),
                Err(e) => throttle_of(s@) == Err::<(u32, u32), ThrottleFault>(fault_of(e)),
            },
    {
        let pieces = split_chars(&chars_of(s), ',');
        proof {
            crate::text::lemma_split_nonempty(s@, ',');
        }
        assert(seqs_of(pieces@)[0] == pieces@[0]@);
        let bandwidth = match read_piece(&pieces[0]) {
            Ok(n) => n,
            Err(e) => {
                return Err(e);
            },
        };
        if pieces.len() < 2 {
            return Err(ThrottleError::NoBurst);
        }
        assert(seqs_of(pieces@)[1] == pieces@[1]@);
        let burst = match read_piece(&pieces[1]) {
            Ok(n) => n,
            Err(e) => {
                return Err(e);
            },
        };
        Ok(Throttle { bandwidth, burst })
    }

    /// The same throttle with the bandwidth set to `value`.
    pub fn bandwidth(self, value: u32) -> (res: Throttle)
        ensures
            res == (Throttle { bandwidth: value, ..self }),
    {
        Throttle { bandwidth: value, ..self }
    }

    /// The same throttle with the burst set to `value`.
    pub fn burst(self, value: u32) -> (res: Throttle)
        ensures
            res == (Throttle { burst: value, ..self }),
    {
        Throttle { burst: value, ..self }
    }
}

/// The I/O error of the standard library, carried through unread.
#[verifier::external_type_specification]
#[verifier::external_body]
pub struct ExIoError(std::io::Error);

/// Calls `std::io::Error::new` with the kind `InvalidInput` and `message`, boxed. Nothing is
/// promised of the error value: Verus cannot look into it.
#[verifier::external_body]
fn invalid_input(message: String) -> Box<std::io::Error> {
    Box::new(std::io::Error::new(std::io::ErrorKind::InvalidInput, message))
}

/// The message of the text `e` is reported with.
pub open spec fn fault_message(e: ThrottleFault) -> Seq<char> {
    match e {
        ThrottleFault::InvalidSize(m) => m,
        ThrottleFault::OutOfRange => "out of range integral type conversion attempted"@,
        ThrottleFault::NoBurst => "No burst given."@,
    }
}

impl ThrottleError {
    /// The message the error is reported with: the byte-size parser's own message, the
    /// message of a failed conversion to 32 bits, or that no burst was given.
    pub fn message(&self) -> (res: String)
        ensures
            res@ == fault_message(fault_of(*self)),
    {
        match self {
            ThrottleError::InvalidSize(m) => m.clone(),
            ThrottleError::OutOfRange => "out of range integral type conversion attempted".to_owned(),
            ThrottleError::NoBurst => "No burst given.".to_owned(),
        }
    }
}

impl FromStr for Throttle {
    type Err = Box<std::io::Error>;

    /// Reads a throttle as `Throttle::parse` does; a refusal becomes an I/O error of kind
    /// `InvalidInput` with the message of `ThrottleError::message`.
    fn from_str(s: &str) -> (res: Result<Throttle, Box<std::io::Error>>)
        ensures
            res is Ok <==> throttle_of(s@) is Ok,
            res matches Ok(t) ==> throttle_of(s@) == Ok::<(u32, u32), ThrottleFault>((t.bandwidth, t.burst)),
    {
        match Throttle::parse(s) {
            Ok(t) => Ok(t),
            Err(e) => Err(invalid_input(e.message())),
        }
    }
}

/// Only the first two comma-separated pieces count: whatever follows a second comma is
/// ignored.
pub proof fn throttle_ignores_later_pieces(s: Seq<char>, rest: Seq<char>)
    requires
        split_on(s, ',').len() >= 2,
    ensures
        throttle_of(s.push(',') + rest) == throttle_of(s),
{
    crate::text::lemma_split_after_sep(s, rest, ',');
    assert(split_on(s.push(',') + rest, ',')[0] == split_on(s, ',')[0]);
    assert(split_on(s.push(',') + rest, ',')[1] == split_on(s, ',')[1]);
}

/// Two pieces without a comma, joined by one, split into exactly those two pieces.
proof fn lemma_split_pair(x: Seq<char>, y: Seq<char>)
    requires
        forall|j: int| 0 <= j < x.len() ==> x[j] != ',',
        forall|j: int| 0 <= j < y.len() ==> y[j] != ',',
    ensures
        split_on(x + seq![','] + y, ',') == seq![x, y],
{
    let e = Seq::<char>::empty();
    crate::text::lemma_split_extend_last(e, x, ',');
    assert(e + x =~= x);
    assert(split_on(e, ',') == seq![e]);
    assert(split_on(x, ',') =~= seq![x]);
    let p = x.push(',');
    assert(p.drop_last() =~= x);
    assert(split_on(p, ',') =~= seq![x, e]);
    crate::text::lemma_split_extend_last(p, y, ',');
    assert(x + seq![','] + y =~= p + y);
    assert(split_on(p + y, ',') =~= seq![x, y]);
}

/// Two numbers written in base ten and joined by a comma, as `format!("{a},{b}")` writes
/// them, read back as the bandwidth `a` and the burst `b`.
pub proof fn throttle_reads_decimal_pair(a: u32, b: u32)
    ensures
        throttle_of(decimal_text(a as nat) + seq![','] + decimal_text(b as nat)) == Ok::<
            (u32, u32),
            ThrottleFault,
        >((a, b)),
{
    let x = decimal_text(a as nat);
    let y = decimal_text(b as nat);
    crate::text::lemma_decimal_text(a as nat);
    crate::text::lemma_decimal_text(b as nat);
    crate::text::lemma_decimal_untrimmed(x);
    crate::text::lemma_decimal_untrimmed(y);
    assert forall|j: int| 0 <= j < x.len() implies x[j] != ',' by {
        assert(crate::text::is_digit(x[j]));
    }
    assert forall|j: int| 0 <= j < y.len() implies y[j] != ',' by {
        assert(crate::text::is_digit(y[j]));
    }
    lemma_split_pair(x, y);
    assert(piece_size(x) == Ok::<u32, ThrottleFault>(a));
    assert(piece_size(y) == Ok::<u32, ThrottleFault>(b));
}

/// A unit's text is ASCII letters: no digit, white space or comma.
proof fn lemma_unit_letters(u: Seq<char>)
    requires
        unit_factor(u) is Some,
    ensures
        u.len() > 0,
        forall|j: int|
            0 <= j < u.len() ==> !crate::text::is_digit(#[trigger] u[j]) && !crate::text::white_space(u[j])
                && u[j] != ',',
{
}

/// A number in base ten followed by a unit gives the number times the unit's factor.
proof fn lemma_sized_piece(x: nat, u: Seq<char>)
    requires
        x <= u64::MAX,
        unit_factor(u) is Some,
    ensures
        ({
            let t = decimal_text(x) + u;
            &&& forall|j: int| 0 <= j < t.len() ==> t[j] != ','
            &&& trimmed(t) == t
            &&& byte_size_of(t) == Ok::<u64, Seq<char>>(scaled(x, unit_factor(u)->Some_0))
        }),
{
    let d = decimal_text(x);
    let t = d + u;
    crate::text::lemma_decimal_text(x);
    lemma_unit_letters(u);
    assert forall|j: int| 0 <= j < t.len() implies t[j] != ',' by {
        if j < d.len() {
            assert(crate::text::is_digit(d[j]));
        } else {
            assert(t[j] == u[j - d.len()]);
        }
    }
    assert(crate::text::is_digit(d[0]));
    assert(t[0] == d[0]);
    assert(t.last() == u.last());
    assert(!crate::text::white_space(u[u.len() - 1]));
    assert(crate::text::trim_start(t) == t);
    assert(crate::text::trim_end(t) == t);
    crate::text::lemma_leading_digits(d, u);
    assert(t.take(d.len() as int) =~= d);
    assert(t.skip(d.len() as int) =~= u);
    assert(!is_decimal(t)) by {
        assert(t[d.len() as int] == u[0]);
        assert(!crate::text::is_digit(t[d.len() as int]));
    }
}

/// Sizes written as a number and a unit, such as `"512KB,1MiB"`, read as the number times
/// the unit's factor (`KB` is 1000 bytes, `KiB` 1024, in either case): the bandwidth and
/// burst are those products when both fit in 32 bits, and `OutOfRange` otherwise.
pub proof fn throttle_reads_sizes_with_units(x: nat, ux: Seq<char>, y: nat, uy: Seq<char>)
    requires
        x <= u64::MAX,
        y <= u64::MAX,
        unit_factor(ux) is Some,
        unit_factor(uy) is Some,
    ensures
        ({
            let bx = scaled(x, unit_factor(ux)->Some_0);
            let by = scaled(y, unit_factor(uy)->Some_0);
            throttle_of(decimal_text(x) + ux + seq![','] + decimal_text(y) + uy) == if bx <= u32::MAX
                && by <= u32::MAX {
                Ok::<(u32, u32), ThrottleFault>((bx as u32, by as u32))
            } else {
                Err::<(u32, u32), ThrottleFault>(ThrottleFault::OutOfRange)
            }
        }),
{
    lemma_sized_piece(x, ux);
    lemma_sized_piece(y, uy);
    let a = decimal_text(x) + ux;
    let b = decimal_text(y) + uy;
    lemma_split_pair(a, b);
    assert(decimal_text(x) + ux + seq![','] + decimal_text(y) + uy =~= a + seq![','] + b);
}

} // verus!
