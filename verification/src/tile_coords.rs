//! Absolute pixel positions on the canvas, written as (tile_x, tile_y, x, y):
//! which 1000x1000 tile, and the offset within it. A position can be parsed
//! from the textual form `(tile_x: 12, tile_y: 7, x: 0, y: 999)`: a bracketed,
//! comma-separated 4-tuple of unsigned 16-bit integers, each optionally
//! preceded by a label and a colon, with whitespace around tokens ignored.

use vstd::prelude::*;
use vstd::string::StrSliceExecFns;
use vstd::string::StringSliceAdditionalSpecFns;

verus! {

/// An absolute pixel position: a tile of the canvas grid and an offset
/// within that tile.
#[derive(Clone, Copy, PartialEq, Eq, Structural, Debug)]
pub struct TileCoords {
    pub tile_x: u16,
    pub tile_y: u16,
    pub x: u16,
    pub y: u16,
}

/// Which of the four fields of the textual form an error refers to,
/// in their fixed order.
#[derive(Clone, Copy, PartialEq, Eq, Structural, Debug)]
pub enum TileField {
    TileX,
    TileY,
    X,
    Y,
}

/// Why a textual coordinate failed to parse.
#[derive(Clone, Copy, PartialEq, Eq, Structural, Debug)]
pub enum TileCoordsError {
    /// The surrounding `(` ... `)` pair is not there.
    MissingBrackets,
    /// Fewer than four comma-separated fields; names the first missing one.
    MissingField(TileField),
    /// A field's value is empty, not all digits, or over 65535.
    MalformedField(TileField),
}

/// ASCII whitespace that is ignored around tokens.
pub open spec fn is_space(b: u8) -> bool {
    b == 32 || b == 9 || b == 13 || b == 10
}

/// The sequence without its leading whitespace.
pub open spec fn trim_start(s: Seq<u8>) -> Seq<u8>
    decreases s.len(),
{
    if s.len() > 0 && is_space(s[0]) {
        trim_start(s.drop_first())
    } else {
        s
    }
}

/// The sequence without its trailing whitespace.
pub open spec fn trim_end(s: Seq<u8>) -> Seq<u8>
    decreases s.len(),
{
    if s.len() > 0 && is_space(s.last()) {
        trim_end(s.drop_last())
    } else {
        s
    }
}

/// The sequence without leading or trailing whitespace.
pub open spec fn trim(s: Seq<u8>) -> Seq<u8> {
    trim_end(trim_start(s))
}

/// The fields of `s` split on `,`: always one more field than commas.
pub open spec fn split_commas(s: Seq<u8>) -> Seq<Seq<u8>>
    decreases s.len(),
{
    if s.len() == 0 {
        seq![Seq::<u8>::empty()]
    } else if s[0] == 44 {
        seq![Seq::<u8>::empty()] + split_commas(s.drop_first())
    } else {
        let rest = split_commas(s.drop_first());
        seq![seq![s[0]] + rest[0]] + rest.drop_first()
    }
}

/// Whether the field holds a `:` anywhere.
pub open spec fn has_colon(f: Seq<u8>) -> bool {
    exists|i: int| 0 <= i < f.len() && f[i] == 58
}

/// Everything after the first `:` of the field.
pub open spec fn after_colon(f: Seq<u8>) -> Seq<u8>
    decreases f.len(),
{
    if f.len() == 0 {
        Seq::<u8>::empty()
    } else if f[0] == 58 {
        f.drop_first()
    } else {
        after_colon(f.drop_first())
    }
}

/// The value part of a field: what follows the optional `label:` prefix.
pub open spec fn strip_label(f: Seq<u8>) -> Seq<u8> {
    if has_colon(f) {
        after_colon(f)
    } else {
        f
    }
}

/// Whether every byte is an ASCII decimal digit.
pub open spec fn all_digits(s: Seq<u8>) -> bool {
    forall|i: int| 0 <= i < s.len() ==> 48 <= #[trigger] s[i] <= 57
}

/// The number the digit sequence denotes in decimal.
pub open spec fn digits_val(s: Seq<u8>) -> int
    decreases s.len(),
{
    if s.len() == 0 {
        0
    } else {
        digits_val(s.drop_last()) * 10 + (s.last() - 48)
    }
}

/// The unsigned 16-bit value of one field: strip the optional label, trim
/// whitespace, and read a nonempty all-digit token not over 65535.
pub open spec fn spec_parse_field(f: Seq<u8>) -> Option<u16> {
    let v = trim(strip_label(f));
    if v.len() > 0 && all_digits(v) && digits_val(v) <= 65535 {
        Some(digits_val(v) as u16)
    } else {
        None
    }
}

/// What parsing a textual coordinate yields, over the UTF-8 bytes of the
/// text. The field count is checked first, then the bracket pair, then each
/// field in order.
pub open spec fn spec_parse_tile_coords(s: Seq<u8>) -> Result<TileCoords, TileCoordsError> {
    let t = trim(s);
    let has_open = t.len() > 0 && t[0] == 40;
    let t1 = if has_open {
        t.drop_first()
    } else {
        t
    };
    let has_close = t1.len() > 0 && t1.last() == 41;
    let inner = if has_close {
        t1.drop_last()
    } else {
        t1
    };
    let fields = split_commas(inner);
    if fields.len() == 1 {
        Err(TileCoordsError::MissingField(TileField::TileY))
    } else if fields.len() == 2 {
        Err(TileCoordsError::MissingField(TileField::X))
    } else if fields.len() == 3 {
        Err(TileCoordsError::MissingField(TileField::Y))
    } else if !(has_open && has_close) {
        Err(TileCoordsError::MissingBrackets)
    } else {
        match spec_parse_field(fields[0]) {
            None => Err(TileCoordsError::MalformedField(TileField::TileX)),
            Some(tile_x) => match spec_parse_field(fields[1]) {
                None => Err(TileCoordsError::MalformedField(TileField::TileY)),
                Some(tile_y) => match spec_parse_field(fields[2]) {
                    None => Err(TileCoordsError::MalformedField(TileField::X)),
                    Some(x) => match spec_parse_field(fields[3]) {
                        None => Err(TileCoordsError::MalformedField(TileField::Y)),
                        Some(y) => Ok(TileCoords { tile_x, tile_y, x, y }),
                    },
                },
            },
        }
    }
}

proof fn lemma_trim_start_subrange(s: Seq<u8>, lo: int)
    requires
        0 <= lo <= s.len(),
        forall|k: int| 0 <= k < lo ==> is_space(#[trigger] s[k]),
        lo < s.len() ==> !is_space(s[lo]),
    ensures
        trim_start(s) == s.subrange(lo, s.len() as int),
    decreases lo,
{
    if lo == 0 {
        assert(s.subrange(0, s.len() as int) =~= s);
    } else {
        assert(is_space(s[0]));
        lemma_trim_start_subrange(s.drop_first(), lo - 1);
        assert(s.drop_first().subrange(lo - 1, s.drop_first().len() as int) =~= s.subrange(
            lo,
            s.len() as int,
        ));
    }
}

proof fn lemma_trim_end_subrange(s: Seq<u8>, hi: int)
    requires
        0 <= hi <= s.len(),
        forall|k: int| hi <= k < s.len() ==> is_space(#[trigger] s[k]),
        hi > 0 ==> !is_space(s[hi - 1]),
    ensures
        trim_end(s) == s.subrange(0, hi),
    decreases s.len(),
{
    if hi == s.len() {
        assert(s.subrange(0, s.len() as int) =~= s);
    } else {
        assert(is_space(s.last()));
        lemma_trim_end_subrange(s.drop_last(), hi);
        assert(s.drop_last().subrange(0, hi) =~= s.subrange(0, hi));
    }
}

proof fn lemma_split_commas_nonempty(s: Seq<u8>)
    ensures
        split_commas(s).len() >= 1,
    decreases s.len(),
{
    if s.len() > 0 {
        lemma_split_commas_nonempty(s.drop_first());
    }
}

proof fn lemma_split_commas_snoc(s: Seq<u8>, b: u8)
    ensures
        b == 44 ==> split_commas(s.push(b)) == split_commas(s).push(Seq::<u8>::empty()),
        b != 44 ==> split_commas(s.push(b)) == split_commas(s).update(
            split_commas(s).len() - 1,
            split_commas(s).last().push(b),
        ),
    decreases s.len(),
{
    lemma_split_commas_nonempty(s);
    if s.len() == 0 {
        let t = s.push(b);
        assert(t.drop_first() =~= Seq::<u8>::empty());
        assert(s =~= Seq::<u8>::empty());
        assert(split_commas(Seq::<u8>::empty()) == seq![Seq::<u8>::empty()]);
        if b == 44 {
            assert(split_commas(t) =~~= split_commas(s).push(Seq::<u8>::empty()));
        } else {
            assert(seq![t[0]] + split_commas(t.drop_first())[0] =~= Seq::<u8>::empty().push(b));
            assert(split_commas(t) =~~= split_commas(s).update(
                split_commas(s).len() - 1,
                split_commas(s).last().push(b),
            ));
        }
    } else {
        let t = s.push(b);
        assert(t[0] == s[0]);
        assert(t.drop_first() =~= s.drop_first().push(b));
        lemma_split_commas_snoc(s.drop_first(), b);
        lemma_split_commas_nonempty(s.drop_first());
        if b == 44 {
            if s[0] == 44 {
                assert(split_commas(t) =~~= split_commas(s).push(Seq::<u8>::empty()));
            } else {
                let rest = split_commas(s.drop_first());
                assert(rest.push(Seq::<u8>::empty()).drop_first() =~~= rest.drop_first().push(
                    Seq::<u8>::empty(),
                ));
                assert(split_commas(t) =~~= split_commas(s).push(Seq::<u8>::empty()));
            }
        } else {
            let rest = split_commas(s.drop_first());
            let rest2 = rest.update(rest.len() - 1, rest.last().push(b));
            if s[0] == 44 {
                assert(split_commas(t) =~~= seq![Seq::<u8>::empty()] + rest2);
                assert(split_commas(s) =~~= seq![Seq::<u8>::empty()] + rest);
                assert(split_commas(t) =~~= split_commas(s).update(
                    split_commas(s).len() - 1,
                    split_commas(s).last().push(b),
                ));
            } else {
                if rest.len() == 1 {
                    assert(rest2[0] == rest[0].push(b));
                    assert(split_commas(t) =~~= seq![seq![s[0]] + rest[0].push(b)]);
                    assert(seq![s[0]] + rest[0].push(b) =~= (seq![s[0]] + rest[0]).push(b));
                    assert(split_commas(t) =~~= split_commas(s).update(
                        split_commas(s).len() - 1,
                        split_commas(s).last().push(b),
                    ));
                } else {
                    assert(rest2[0] == rest[0]);
                    assert(rest2.drop_first() =~~= rest.drop_first().update(
                        rest.drop_first().len() - 1,
                        rest.drop_first().last().push(b),
                    ));
                    assert(split_commas(t) =~~= split_commas(s).update(
                        split_commas(s).len() - 1,
                        split_commas(s).last().push(b),
                    ));
                }
            }
        }
    }
}

proof fn lemma_after_colon_subrange(f: Seq<u8>, j: int)
    requires
        0 <= j < f.len(),
        f[j] == 58,
        forall|k: int| 0 <= k < j ==> #[trigger] f[k] != 58,
    ensures
        after_colon(f) == f.subrange(j + 1, f.len() as int),
    decreases j,
{
    if j == 0 {
        assert(f.drop_first() =~= f.subrange(1, f.len() as int));
    } else {
        lemma_after_colon_subrange(f.drop_first(), j - 1);
        assert(f.drop_first().subrange(j, f.drop_first().len() as int) =~= f.subrange(
            j + 1,
            f.len() as int,
        ));
    }
}

proof fn lemma_digits_val_nonneg(s: Seq<u8>)
    requires
        all_digits(s),
    ensures
        digits_val(s) >= 0,
    decreases s.len(),
{
    if s.len() > 0 {
        assert(all_digits(s.drop_last()));
        lemma_digits_val_nonneg(s.drop_last());
    }
}

proof fn lemma_digits_val_mono(s: Seq<u8>, k: int)
    requires
        all_digits(s),
        0 <= k <= s.len(),
    ensures
        digits_val(s) >= digits_val(s.take(k)),
    decreases s.len() - k,
{
    if k == s.len() {
        assert(s.take(k) =~= s);
    } else {
        assert(all_digits(s.take(k)));
        lemma_digits_val_nonneg(s.take(k));
        assert(s.take(k + 1).drop_last() =~= s.take(k));
        lemma_digits_val_mono(s, k + 1);
    }
}

/// Whether a byte is whitespace that the parser ignores.
fn is_space_byte(b: u8) -> (r: bool)
    ensures
        r == is_space(b),
{
    b == 32 || b == 9 || b == 13 || b == 10
}

/// The views of a sequence of byte vectors.
pub open spec fn field_views(s: Seq<Vec<u8>>) -> Seq<Seq<u8>> {
    s.map_values(|f: Vec<u8>| f@)
}

/// Reads one comma-separated field: drops an optional `label:` prefix,
/// trims whitespace, and parses a decimal integer not over 65535.
fn parse_field(f: &Vec<u8>) -> (r: Option<u16>)
    ensures
        r == spec_parse_field(f@),
{
    let n: usize = f.len();
    let mut j: usize = 0;
    while j < n && f[j] != 58
        invariant
            0 <= j <= n == f@.len(),
            forall|k: int| 0 <= k < j ==> #[trigger] f@[k] != 58,
        decreases n - j,
    {
        j += 1;
    }
    let start: usize = if j < n {
        j + 1
    } else {
        0
    };
    proof {
        if j < n {
            assert(has_colon(f@));
            lemma_after_colon_subrange(f@, j as int);
        } else {
            assert(!has_colon(f@));
            assert(f@.subrange(0, n as int) =~= f@);
        }
        assert(strip_label(f@) == f@.subrange(start as int, n as int));
    }
    let ghost val0: Seq<u8> = strip_label(f@);
    let mut a: usize = start;
    while a < n && is_space_byte(f[a])
        invariant
            start <= a <= n == f@.len(),
            forall|k: int| start <= k < a ==> is_space(#[trigger] f@[k]),
        decreases n - a,
    {
        a += 1;
    }
    let mut b: usize = n;
    while b > a && is_space_byte(f[b - 1])
        invariant
            a <= b <= n == f@.len(),
            forall|k: int| b <= k < n ==> is_space(#[trigger] f@[k]),
        decreases b,
    {
        b -= 1;
    }
    proof {
        lemma_trim_start_subrange(val0, a - start);
        assert(val0.subrange(a - start, val0.len() as int) =~= f@.subrange(a as int, n as int));
        lemma_trim_end_subrange(f@.subrange(a as int, n as int), b - a);
        assert(f@.subrange(a as int, n as int).subrange(0, b - a) =~= f@.subrange(
            a as int,
            b as int,
        ));
        assert(trim(strip_label(f@)) == f@.subrange(a as int, b as int));
    }
    let ghost val: Seq<u8> = trim(strip_label(f@));
    if a == b {
        return None;
    }
    let mut acc: u32 = 0;
    let mut i: usize = a;
    while i < b
        invariant
            a <= i <= b <= n == f@.len(),
            val == f@.subrange(a as int, b as int),
            val == trim(strip_label(f@)),
            a < b,
            forall|k: int| a <= k < i ==> 48 <= #[trigger] f@[k] <= 57,
            acc <= 65535,
            acc == digits_val(val.take(i - a)),
        decreases b - i,
    {
        let d = f[i];
        if d < 48 || d > 57 {
            proof {
                assert(val[i - a] == f@[i as int]);
                assert(!all_digits(val));
            }
            return None;
        }
        let acc2: u32 = acc * 10 + ((d - 48) as u32);
        proof {
            assert(val.take(i - a + 1).drop_last() =~= val.take(i - a));
            assert(val.take(i - a + 1).last() == f@[i as int]);
        }
        if acc2 > 65535 {
            proof {
                if all_digits(val) {
                    lemma_digits_val_mono(val, i - a + 1);
                }
            }
            return None;
        }
        acc = acc2;
        i += 1;
    }
    proof {
        assert(val.take(b - a) =~= val);
        assert(all_digits(val));
    }
    Some(acc as u16)
}

impl TileCoords {
    /// Builds a position from its four components.
    pub fn new(tile_x: u16, tile_y: u16, x: u16, y: u16) -> (r: TileCoords)
        ensures
            r == (TileCoords { tile_x, tile_y, x, y }),
    {
        TileCoords { tile_x, tile_y, x, y }
    }

    /// Parses the textual form `(tile_x: 12, tile_y: 7, x: 0, y: 999)`.
    /// A label before a colon in each field is discarded and whitespace
    /// around tokens is ignored. The error names the first missing field,
    /// the missing bracket pair, or the first malformed field, in that
    /// order of checks.
    pub fn parse_tile_coords_string(v: &str) -> (r: Result<TileCoords, TileCoordsError>)
        ensures
            r == spec_parse_tile_coords(v.spec_bytes()),
    {
        let bytes: Vec<u8> = v.as_bytes_vec();
        let ghost s: Seq<u8> = v.spec_bytes();
        let n: usize = bytes.len();
        let mut lo: usize = 0;
        while lo < n && is_space_byte(bytes[lo])
            invariant
                0 <= lo <= n == s.len(),
                bytes@ == s,
                forall|k: int| 0 <= k < lo ==> is_space(#[trigger] s[k]),
            decreases n - lo,
        {
            lo += 1;
        }
        let mut hi: usize = n;
        while hi > lo && is_space_byte(bytes[hi - 1])
            invariant
                lo <= hi <= n == s.len(),
                bytes@ == s,
                forall|k: int| hi <= k < n ==> is_space(#[trigger] s[k]),
            decreases hi,
        {
            hi -= 1;
        }
        proof {
            lemma_trim_start_subrange(s, lo as int);
            lemma_trim_end_subrange(s.subrange(lo as int, n as int), hi - lo);
            assert(s.subrange(lo as int, n as int).subrange(0, hi - lo) =~= s.subrange(
                lo as int,
                hi as int,
            ));
        }
        let ghost t: Seq<u8> = trim(s);
        let has_open = lo < hi && bytes[lo] == 40;
        let lo2: usize = if has_open {
            lo + 1
        } else {
            lo
        };
        let ghost t1: Seq<u8> = if has_open {
            t.drop_first()
        } else {
            t
        };
        proof {
            if has_open {
                assert(t.drop_first() =~= s.subrange(lo2 as int, hi as int));
            }
        }
        let has_close = hi > lo2 && bytes[hi - 1] == 41;
        let hi2: usize = if has_close {
            hi - 1
        } else {
            hi
        };
        let ghost inner: Seq<u8> = if has_close {
            t1.drop_last()
        } else {
            t1
        };
        proof {
            if has_close {
                assert(t1.drop_last() =~= s.subrange(lo2 as int, hi2 as int));
            }
        }
        let mut fields: Vec<Vec<u8>> = Vec::new();
        fields.push(Vec::new());
        proof {
            assert(s.subrange(lo2 as int, lo2 as int) =~= Seq::<u8>::empty());
            assert(field_views(fields@) =~~= split_commas(s.subrange(lo2 as int, lo2 as int)));
        }
        let mut i: usize = lo2;
        while i < hi2
            invariant
                lo2 <= i <= hi2 <= n == s.len(),
                bytes@ == s,
                fields@.len() >= 1,
                field_views(fields@) == split_commas(s.subrange(lo2 as int, i as int)),
            decreases hi2 - i,
        {
            let c = bytes[i];
            proof {
                lemma_split_commas_snoc(s.subrange(lo2 as int, i as int), c);
                lemma_split_commas_nonempty(s.subrange(lo2 as int, i as int));
                assert(s.subrange(lo2 as int, i + 1) =~= s.subrange(lo2 as int, i as int).push(
                    s[i as int],
                ));
            }
            if c == 44 {
                fields.push(Vec::new());
                proof {
                    assert(field_views(fields@) =~~= split_commas(s.subrange(lo2 as int, i + 1)));
                }
            } else {
                let mut last: Vec<u8> = match fields.pop() {
                    Some(f) => f,
                    None => Vec::new(),
                };
                last.push(c);
                fields.push(last);
                proof {
                    assert(field_views(fields@) =~~= split_commas(s.subrange(lo2 as int, i + 1)));
                }
            }
            i += 1;
        }
        proof {
            assert(s.subrange(lo2 as int, hi2 as int) == inner);
        }
        let nf = fields.len();
        if nf == 1 {
            return Err(TileCoordsError::MissingField(TileField::TileY));
        }
        if nf == 2 {
            return Err(TileCoordsError::MissingField(TileField::X));
        }
        if nf == 3 {
            return Err(TileCoordsError::MissingField(TileField::Y));
        }
        if !(has_open && has_close) {
            return Err(TileCoordsError::MissingBrackets);
        }
        proof {
            assert(field_views(fields@)[0] == fields@[0]@);
            assert(field_views(fields@)[1] == fields@[1]@);
            assert(field_views(fields@)[2] == fields@[2]@);
            assert(field_views(fields@)[3] == fields@[3]@);
        }
        let tile_x: u16 = match parse_field(&fields[0]) {
            Some(w) => w,
            None => {
                return Err(TileCoordsError::MalformedField(TileField::TileX));
            },
        };
        let tile_y: u16 = match parse_field(&fields[1]) {
            Some(w) => w,
            None => {
                return Err(TileCoordsError::MalformedField(TileField::TileY));
            },
        };
        let x: u16 = match parse_field(&fields[2]) {
            Some(w) => w,
            None => {
                return Err(TileCoordsError::MalformedField(TileField::X));
            },
        };
        let y: u16 = match parse_field(&fields[3]) {
            Some(w) => w,
            None => {
                return Err(TileCoordsError::MalformedField(TileField::Y));
            },
        };
        Ok(TileCoords { tile_x, tile_y, x, y })
    }

    /// The horizontal offset within the tile.
    pub fn get_x(&self) -> (r: u16)
        ensures
            r == self.x,
    {
        self.x
    }

    /// The vertical offset within the tile.
    pub fn get_y(&self) -> (r: u16)
        ensures
            r == self.y,
    {
        self.y
    }

    /// The horizontal tile index.
    pub fn get_tile_x(&self) -> (r: u16)
        ensures
            r == self.tile_x,
    {
        self.tile_x
    }

    /// The vertical tile index.
    pub fn get_tile_y(&self) -> (r: u16)
        ensures
            r == self.tile_y,
    {
        self.tile_y
    }
}

} // verus!
