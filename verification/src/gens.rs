//! The generator variants: each one turns a record index into bytes and
//! appends them to a sink. Stateless variants derive their output from
//! the index or from fresh randomness; sequential corpus variants carry
//! a cursor of their own.

use vstd::prelude::*;
use vstd::string::{StrSliceExecFns, StringExecFns, StringSliceAdditionalSpecFns};

use crate::corpus::{line_at, line_end, next_line, next_offset, random_line};
use crate::dates::{
    date_days_of, date_in_range, date_str_of, format_date_days, now_rfc3339_bytes,
    parse_date_days,
};
use crate::error::{ErrView, Error};
use crate::num::{dec_i64, dec_pad, dec_u64, parse_i32, parse_i32_spec, push_dec_i64, push_dec_pad,
    push_dec_u64};
use crate::rnd::{rand_index, rand_range_u64};
use crate::util::append_bytes;

verus! {

/// A generator, as contracts see it.
pub enum GenView {
    Text { text: Seq<u8> },
    RowNum { start: int },
    IntSeq { start: int, end: int },
    IntRnd { start: int, end: int },
    DateRnd { lo: int, hi: int },
    DateSeq { start: int, length: int },
    Uuid,
    Ip,
    Stamp,
    EnumRnd { vars: Seq<Seq<u8>> },
    EnumSeq { vars: Seq<Seq<u8>> },
    Phone,
    BytesRnd { data: Seq<u8> },
    BytesSeq { data: Seq<u8>, offset: int },
    FileRnd { path: Seq<u8>, data: Option<Seq<u8>> },
    FileSeq { path: Seq<u8>, data: Option<Seq<u8>>, offset: int },
}

/// Internal consistency of one generator: bounds ordered and within the
/// ranges its arithmetic needs, corpora non-empty, cursors within their
/// buffers.
pub open spec fn gen_wf(g: GenView) -> bool {
    match g {
        GenView::Text { .. } => true,
        GenView::RowNum { start } => -0x8000_0000 <= start <= 0x7fff_ffff,
        GenView::IntSeq { start, end } => {
            &&& -0x8000_0000 <= start <= 0x7fff_ffff
            &&& -0x8000_0000 <= end <= 0x7fff_ffff
            &&& start != end
        },
        GenView::IntRnd { start, end } => {
            &&& -0x8000_0000 <= start <= 0x7fff_ffff
            &&& -0x8000_0000 <= end <= 0x7fff_ffff
            &&& start < end
        },
        GenView::DateRnd { lo, hi } => date_in_range(lo) && date_in_range(hi) && lo <= hi,
        GenView::DateSeq { start, length } => date_in_range(start) && date_in_range(
            start + length,
        ),
        GenView::Uuid => true,
        GenView::Ip => true,
        GenView::Stamp => true,
        GenView::EnumRnd { vars } => vars.len() > 0,
        GenView::EnumSeq { vars } => vars.len() > 0,
        GenView::Phone => true,
        GenView::BytesRnd { data } => data.len() > 0,
        GenView::BytesSeq { data, offset } => data.len() > 0 && 0 <= offset <= data.len(),
        GenView::FileRnd { data, .. } => data is Some ==> data.unwrap().len() > 0,
        GenView::FileSeq { data, offset, .. } => match data {
            Some(d) => d.len() > 0 && 0 <= offset <= d.len(),
            None => offset == 0,
        },
    }
}

/// True when the generator has every data source it needs; only
/// file-backed generators can lack one, before their bytes are
/// attached.
pub open spec fn gen_ready(g: GenView) -> bool {
    match g {
        GenView::FileRnd { data, .. } => data is Some,
        GenView::FileSeq { data, .. } => data is Some,
        _ => true,
    }
}

/// The day emitted by a sequential date range for record `i`: the
/// start day shifted by the index, wrapped modulo the day span, in the
/// direction of the span's sign.
pub open spec fn seq_day(start: int, length: int, i: int) -> int {
    if length == 0 {
        start
    } else if length > 0 {
        start + (i % length)
    } else {
        start - (i % (-length))
    }
}

/// The dotted-quad rendering of four octets.
pub open spec fn ip_bytes(o1: int, o2: int, o3: int, o4: int) -> Seq<u8> {
    dec_u64(o1 as nat) + seq![46u8] + dec_u64(o2 as nat) + seq![46u8] + dec_u64(o3 as nat)
        + seq![46u8] + dec_u64(o4 as nat)
}

/// The fixed phone pattern: a country-code digit, then zero-padded
/// blocks of three, three and four digits.
pub open spec fn phone_bytes(x1: int, x2: int, x3: int) -> Seq<u8> {
    seq![56u8, 45u8] + dec_pad(x1 as nat, 3) + seq![45u8] + dec_pad(x2 as nat, 3) + seq![45u8]
        + dec_pad(x3 as nat, 4)
}

/// A lowercase hexadecimal digit.
pub open spec fn is_hex_lower(b: u8) -> bool {
    (48 <= b <= 57) || (97 <= b <= 102)
}

/// The canonical hyphenated lowercase form of a version-4 UUID:
/// 36 bytes, hyphens at positions 8, 13, 18 and 23, hexadecimal digits
/// elsewhere, the version digit `4`, and a variant digit of `8`, `9`,
/// `a` or `b`.
pub open spec fn is_uuid_v4(s: Seq<u8>) -> bool {
    &&& s.len() == 36
    &&& s[8] == 45 && s[13] == 45 && s[18] == 45 && s[23] == 45
    &&& forall|k: int|
        0 <= k < 36 && k != 8 && k != 13 && k != 18 && k != 23 ==> is_hex_lower(#[trigger] s[k])
    &&& s[14] == 52
    &&& (s[19] == 56 || s[19] == 57 || s[19] == 97 || s[19] == 98)
}

/// What one generator call may do for record `i`: how the generator's
/// state moves from `b` to `a`, and which byte strings `out` it may
/// emit.
pub open spec fn gen_output_ok(b: GenView, a: GenView, i: int, out: Seq<u8>) -> bool {
    match b {
        GenView::Text { text } => a == b && out == text,
        GenView::RowNum { start } => a == b && out == dec_i64(start + i),
        GenView::IntSeq { start, end } => {
            let m = if end - start >= 0 {
                end - start
            } else {
                start - end
            };
            a == b && out == dec_i64(start + (i % m))
        },
        GenView::IntRnd { start, end } => a == b && exists|v: int|
            start <= v < end && out == dec_i64(v),
        GenView::DateRnd { lo, hi } => a == b && exists|d: int|
            lo <= d <= hi && out == date_str_of(d),
        GenView::DateSeq { start, length } => a == b && out == date_str_of(
            seq_day(start, length, i),
        ),
        GenView::Uuid => a == b && is_uuid_v4(out),
        GenView::Ip => a == b && exists|o1: int, o2: int, o3: int, o4: int|
            {
                &&& 1 <= o1 <= 254 && 1 <= o2 <= 254 && 1 <= o3 <= 254 && 1 <= o4 <= 254
                &&& out == ip_bytes(o1, o2, o3, o4)
            },
        GenView::Stamp => a == b && crate::dates::is_rfc3339_like(out),
        GenView::EnumRnd { vars } => a == b && exists|k: int| 0 <= k < vars.len() && out == vars[k],
        GenView::EnumSeq { vars } => a == b && out == vars[i % vars.len() as int],
        GenView::Phone => a == b && exists|x1: int, x2: int, x3: int|
            {
                &&& 1 <= x1 < 1000 && 1 <= x2 < 1000 && 1 <= x3 < 10000
                &&& out == phone_bytes(x1, x2, x3)
            },
        GenView::BytesRnd { data } => a == b && exists|off: int|
            0 <= off < data.len() && out == line_at(data, off),
        GenView::BytesSeq { data, offset } => {
            &&& a == (GenView::BytesSeq { data, offset: next_offset(data, offset) })
            &&& out == data.subrange(offset, line_end(data, offset))
        },
        GenView::FileRnd { path, data } => {
            &&& data is Some
            &&& a == b
            &&& exists|off: int| 0 <= off < data.unwrap().len() && out == line_at(
                data.unwrap(),
                off,
            )
        },
        GenView::FileSeq { path, data, offset } => {
            &&& data is Some
            &&& a == (GenView::FileSeq {
                path,
                data,
                offset: next_offset(data.unwrap(), offset),
            })
            &&& out == data.unwrap().subrange(offset, line_end(data.unwrap(), offset))
        },
    }
}

/// Generators whose output and next state are a function of their state
/// and the record index alone: no randomness and no clock.
pub open spec fn gen_deterministic(g: GenView) -> bool {
    match g {
        GenView::Text { .. } => true,
        GenView::RowNum { .. } => true,
        GenView::IntSeq { .. } => true,
        GenView::DateSeq { .. } => true,
        GenView::EnumSeq { .. } => true,
        GenView::BytesSeq { .. } => true,
        GenView::FileSeq { data, .. } => data is Some,
        _ => false,
    }
}

/// Emits the stored text verbatim, for every record index.
pub struct Text {
    text: Vec<u8>,
}

impl View for Text {
    type V = GenView;

    closed spec fn view(&self) -> GenView {
        GenView::Text { text: self.text@ }
    }
}

impl Text {
    /// Wraps a literal span as a generator. Never fails.
    pub fn parse(text: &str) -> (r: Result<Generator, Error>)
        ensures
            r is Ok,
            r->Ok_0@ == (GenView::Text { text: text.spec_bytes() }),
    {
        Ok(Generator::Text(Text { text: text.as_bytes_vec() }))
    }

    /// Wraps literal bytes as a generator.
    pub fn from_bytes(text: Vec<u8>) -> (r: Generator)
        ensures
            r@ == (GenView::Text { text: text@ }),
    {
        Generator::Text(Text { text })
    }

    fn generate(&self, w: &mut Vec<u8>) -> (r: Result<(), Error>)
        ensures
            r is Ok,
            final(w)@ == old(w)@ + self.text@,
    {
        append_bytes(w, self.text.as_slice());
        Ok(())
    }
}

/// Emits `start + i` in decimal for record index `i`.
pub struct RowNum {
    start: i64,
}

impl View for RowNum {
    type V = GenView;

    closed spec fn view(&self) -> GenView {
        GenView::RowNum { start: self.start as int }
    }
}

/// The starting value of a counter macro: `0` without arguments, the
/// parsed first argument with one.
pub open spec fn row_num_spec(a: Seq<Seq<u8>>) -> Result<GenView, ErrView> {
    if a.len() == 0 {
        Ok(GenView::RowNum { start: 0 })
    } else if a.len() == 1 {
        match parse_i32_spec(a[0]) {
            Some(v) => Ok(GenView::RowNum { start: v }),
            None => Err(ErrView::ParseInt),
        }
    } else {
        Err(ErrView::Macro("ROW_NUM"@))
    }
}

impl RowNum {
    /// Builds a counter from zero or one `start` argument.
    pub fn create(args: &Vec<Vec<u8>>) -> (r: Result<Generator, Error>)
        ensures
            r is Ok ==> row_num_spec(args.deep_view()) == Ok::<GenView, ErrView>(r->Ok_0@)
                && gen_wf(r->Ok_0@),
            r is Err ==> row_num_spec(args.deep_view()) == Err::<GenView, ErrView>(r->Err_0@),
    {
        let start: i64 = if args.len() == 0 {
            0
        } else if args.len() == 1 {
            proof {
                assert(args.deep_view()[0] == args@[0]@);
            }
            match parse_i32(args[0].as_slice()) {
                Some(v) => v,
                None => {
                    return Err(Error::ParseInt);
                },
            }
        } else {
            return Err(Error::Macro(String::from_str("ROW_NUM")));
        };
        Ok(Generator::RowNum(RowNum { start }))
    }

    fn generate(&self, i: u32, w: &mut Vec<u8>) -> (r: Result<(), Error>)
        requires
            gen_wf(self@),
        ensures
            r is Ok,
            final(w)@ == old(w)@ + dec_i64(self.start + i),
    {
        let v: i64 = self.start + (i as i64);
        push_dec_i64(w, v);
        Ok(())
    }
}

/// Emits `start + (i mod |end - start|)` in decimal for record `i`.
pub struct IntSeq {
    start: i64,
    end: i64,
}

impl View for IntSeq {
    type V = GenView;

    closed spec fn view(&self) -> GenView {
        GenView::IntSeq { start: self.start as int, end: self.end as int }
    }
}

/// The bounds of a sequential integer macro: the full non-negative
/// span by default, `[0, max)` with one argument, `[start, end)` with
/// two; the bounds may not coincide.
pub open spec fn int_seq_spec(a: Seq<Seq<u8>>) -> Result<GenView, ErrView> {
    if a.len() > 2 {
        Err(ErrView::Macro("INT_SEQ"@))
    } else {
        let s = if a.len() == 2 {
            parse_i32_spec(a[0])
        } else {
            Some(0int)
        };
        let e = if a.len() == 0 {
            Some(0x7fff_ffffint)
        } else if a.len() == 1 {
            parse_i32_spec(a[0])
        } else {
            parse_i32_spec(a[1])
        };
        if s is None || e is None {
            Err(ErrView::ParseInt)
        } else if s.unwrap() == e.unwrap() {
            Err(ErrView::Macro("INT_SEQ"@))
        } else {
            Ok(GenView::IntSeq { start: s.unwrap(), end: e.unwrap() })
        }
    }
}

impl IntSeq {
    /// Builds a sequential bounded integer from up to two arguments.
    pub fn create(args: &Vec<Vec<u8>>) -> (r: Result<Generator, Error>)
        ensures
            r is Ok ==> int_seq_spec(args.deep_view()) == Ok::<GenView, ErrView>(r->Ok_0@)
                && gen_wf(r->Ok_0@),
            r is Err ==> int_seq_spec(args.deep_view()) == Err::<GenView, ErrView>(r->Err_0@),
    {
        if args.len() > 2 {
            return Err(Error::Macro(String::from_str("INT_SEQ")));
        }
        proof {
            if args@.len() >= 1 {
                assert(args.deep_view()[0] == args@[0]@);
            }
            if args@.len() >= 2 {
                assert(args.deep_view()[1] == args@[1]@);
            }
        }
        let start: i64 = if args.len() == 2 {
            match parse_i32(args[0].as_slice()) {
                Some(v) => v,
                None => {
                    return Err(Error::ParseInt);
                },
            }
        } else {
            0
        };
        let end: i64 = if args.len() == 0 {
            0x7fff_ffff
        } else {
            let which: usize = if args.len() == 1 {
                0
            } else {
                1
            };
            match parse_i32(args[which].as_slice()) {
                Some(v) => v,
                None => {
                    return Err(Error::ParseInt);
                },
            }
        };
        if start == end {
            return Err(Error::Macro(String::from_str("INT_SEQ")));
        }
        Ok(Generator::IntSeq(IntSeq { start, end }))
    }

    fn generate(&self, i: u32, w: &mut Vec<u8>) -> (r: Result<(), Error>)
        requires
            gen_wf(self@),
        ensures
            r is Ok,
            final(w)@ == old(w)@ + dec_i64(
                self.start + ((i as int) % (if self.end - self.start >= 0 {
                    self.end - self.start
                } else {
                    self.start as int - self.end
                })),
            ),
    {
        let m: i64 = if self.end >= self.start {
            self.end - self.start
        } else {
            self.start - self.end
        };
        let v: i64 = self.start + (i as i64) % m;
        push_dec_i64(w, v);
        Ok(())
    }
}

/// Emits a uniformly random integer of `[start, end)` for every record.
pub struct IntRnd {
    start: i64,
    end: i64,
}

impl View for IntRnd {
    type V = GenView;

    closed spec fn view(&self) -> GenView {
        GenView::IntRnd { start: self.start as int, end: self.end as int }
    }
}

/// The bounds of a random bounded integer macro: as for the sequential
/// form, but the range must be non-empty in the given order.
pub open spec fn int_rnd_spec(a: Seq<Seq<u8>>) -> Result<GenView, ErrView> {
    if a.len() > 2 {
        Err(ErrView::Macro("INT_RND"@))
    } else {
        let s = if a.len() == 2 {
            parse_i32_spec(a[0])
        } else {
            Some(0int)
        };
        let e = if a.len() == 0 {
            Some(0x7fff_ffffint)
        } else if a.len() == 1 {
            parse_i32_spec(a[0])
        } else {
            parse_i32_spec(a[1])
        };
        if s is None || e is None {
            Err(ErrView::ParseInt)
        } else if s.unwrap() >= e.unwrap() {
            Err(ErrView::Macro("INT_RND"@))
        } else {
            Ok(GenView::IntRnd { start: s.unwrap(), end: e.unwrap() })
        }
    }
}

impl IntRnd {
    /// Builds a random bounded integer from up to two arguments.
    pub fn create(args: &Vec<Vec<u8>>) -> (r: Result<Generator, Error>)
        ensures
            r is Ok ==> int_rnd_spec(args.deep_view()) == Ok::<GenView, ErrView>(r->Ok_0@)
                && gen_wf(r->Ok_0@),
            r is Err ==> int_rnd_spec(args.deep_view()) == Err::<GenView, ErrView>(r->Err_0@),
    {
        if args.len() > 2 {
            return Err(Error::Macro(String::from_str("INT_RND")));
        }
        proof {
            if args@.len() >= 1 {
                assert(args.deep_view()[0] == args@[0]@);
            }
            if args@.len() >= 2 {
                assert(args.deep_view()[1] == args@[1]@);
            }
        }
        let start: i64 = if args.len() == 2 {
            match parse_i32(args[0].as_slice()) {
                Some(v) => v,
                None => {
                    return Err(Error::ParseInt);
                },
            }
        } else {
            0
        };
        let end: i64 = if args.len() == 0 {
            0x7fff_ffff
        } else {
            let which: usize = if args.len() == 1 {
                0
            } else {
                1
            };
            match parse_i32(args[which].as_slice()) {
                Some(v) => v,
                None => {
                    return Err(Error::ParseInt);
                },
            }
        };
        if start >= end {
            return Err(Error::Macro(String::from_str("INT_RND")));
        }
        Ok(Generator::IntRnd(IntRnd { start, end }))
    }

    fn generate(&self, w: &mut Vec<u8>) -> (r: Result<(), Error>)
        requires
            gen_wf(self@),
        ensures
            r is Ok,
            exists|v: int|
                self.start <= v < self.end && final(w)@ == old(w)@ + dec_i64(v),
    {
        let width: u64 = (self.end - self.start) as u64;
        let v: i64 = self.start + rand_range_u64(0, width) as i64;
        push_dec_i64(w, v);
        Ok(())
    }
}

/// Relies on `uuid::Uuid::new_v4` and its hyphenated `Display` form:
/// 36 lowercase hexadecimal bytes with hyphens at positions 8, 13, 18
/// and 23; the construction masks in the version digit `4` and a
/// variant digit of `8`, `9`, `a` or `b`. The value is random, so
/// nothing more is claimed.
#[verifier::external_body]
fn uuid_v4_bytes() -> (r: Vec<u8>)
    ensures
        is_uuid_v4(r@),
{
    uuid::Uuid::new_v4().to_string().into_bytes()
}

/// Emits a fresh version-4 UUID in canonical hyphenated form.
pub struct Uuid4 {}

impl View for Uuid4 {
    type V = GenView;

    closed spec fn view(&self) -> GenView {
        GenView::Uuid
    }
}

/// A UUID macro takes no arguments.
pub open spec fn uuid_spec(a: Seq<Seq<u8>>) -> Result<GenView, ErrView> {
    if a.len() == 0 {
        Ok(GenView::Uuid)
    } else {
        Err(ErrView::Macro("UUID4"@))
    }
}

impl Uuid4 {
    /// Builds a UUID generator; the macro takes no arguments.
    pub fn create(args: &Vec<Vec<u8>>) -> (r: Result<Generator, Error>)
        ensures
            r is Ok ==> uuid_spec(args.deep_view()) == Ok::<GenView, ErrView>(r->Ok_0@)
                && gen_wf(r->Ok_0@),
            r is Err ==> uuid_spec(args.deep_view()) == Err::<GenView, ErrView>(r->Err_0@),
    {
        if args.len() != 0 {
            return Err(Error::Macro(String::from_str("UUID4")));
        }
        Ok(Generator::Uuid4(Uuid4 {}))
    }

    fn generate(&self, w: &mut Vec<u8>) -> (r: Result<(), Error>)
        ensures
            r is Ok,
            exists|out: Seq<u8>| final(w)@ == old(w)@ + out && is_uuid_v4(out),
    {
        let u = uuid_v4_bytes();
        append_bytes(w, u.as_slice());
        Ok(())
    }
}

/// Emits four dot-separated octets, each uniformly random in `[1, 254]`.
pub struct IpV4 {}

impl View for IpV4 {
    type V = GenView;

    closed spec fn view(&self) -> GenView {
        GenView::Ip
    }
}

/// An IPv4 macro takes no arguments.
pub open spec fn ipv4_spec(a: Seq<Seq<u8>>) -> Result<GenView, ErrView> {
    if a.len() == 0 {
        Ok(GenView::Ip)
    } else {
        Err(ErrView::Macro("IPV4"@))
    }
}

impl IpV4 {
    /// Builds an IPv4 generator; the macro takes no arguments.
    pub fn create(args: &Vec<Vec<u8>>) -> (r: Result<Generator, Error>)
        ensures
            r is Ok ==> ipv4_spec(args.deep_view()) == Ok::<GenView, ErrView>(r->Ok_0@)
                && gen_wf(r->Ok_0@),
            r is Err ==> ipv4_spec(args.deep_view()) == Err::<GenView, ErrView>(r->Err_0@),
    {
        if args.len() != 0 {
            return Err(Error::Macro(String::from_str("IPV4")));
        }
        Ok(Generator::IpV4(IpV4 {}))
    }

    fn generate(&self, w: &mut Vec<u8>) -> (r: Result<(), Error>)
        ensures
            r is Ok,
            exists|o1: int, o2: int, o3: int, o4: int|
                {
                    &&& 1 <= o1 <= 254 && 1 <= o2 <= 254 && 1 <= o3 <= 254 && 1 <= o4 <= 254
                    &&& final(w)@ == old(w)@ + ip_bytes(o1, o2, o3, o4)
                },
    {
        let o1 = rand_range_u64(1, 255);
        let o2 = rand_range_u64(1, 255);
        let o3 = rand_range_u64(1, 255);
        let o4 = rand_range_u64(1, 255);
        push_dec_u64(w, o1);
        w.push(46);
        push_dec_u64(w, o2);
        w.push(46);
        push_dec_u64(w, o3);
        w.push(46);
        push_dec_u64(w, o4);
        proof {
            assert(w@ =~= old(w)@ + ip_bytes(o1 as int, o2 as int, o3 as int, o4 as int));
        }
        Ok(())
    }
}

/// Emits the current instant in RFC 3339 form.
pub struct Timestamp {}

impl View for Timestamp {
    type V = GenView;

    closed spec fn view(&self) -> GenView {
        GenView::Stamp
    }
}

/// A timestamp macro takes no arguments.
pub open spec fn timestamp_spec(a: Seq<Seq<u8>>) -> Result<GenView, ErrView> {
    if a.len() == 0 {
        Ok(GenView::Stamp)
    } else {
        Err(ErrView::Macro("TIMESTAMP"@))
    }
}

impl Timestamp {
    /// Builds a timestamp generator; the macro takes no arguments.
    pub fn create(args: &Vec<Vec<u8>>) -> (r: Result<Generator, Error>)
        ensures
            r is Ok ==> timestamp_spec(args.deep_view()) == Ok::<GenView, ErrView>(r->Ok_0@)
                && gen_wf(r->Ok_0@),
            r is Err ==> timestamp_spec(args.deep_view()) == Err::<GenView, ErrView>(r->Err_0@),
    {
        if args.len() != 0 {
            return Err(Error::Macro(String::from_str("TIMESTAMP")));
        }
        Ok(Generator::Timestamp(Timestamp {}))
    }

    fn generate(&self, w: &mut Vec<u8>) -> (r: Result<(), Error>)
        ensures
            r is Ok,
            exists|out: Seq<u8>|
                final(w)@ == old(w)@ + out && crate::dates::is_rfc3339_like(out),
    {
        let t = now_rfc3339_bytes();
        append_bytes(w, t.as_slice());
        Ok(())
    }
}

/// Emits a fixed-pattern random phone number.
pub struct Phone {}

impl View for Phone {
    type V = GenView;

    closed spec fn view(&self) -> GenView {
        GenView::Phone
    }
}

/// A phone macro takes no arguments.
pub open spec fn phone_spec(a: Seq<Seq<u8>>) -> Result<GenView, ErrView> {
    if a.len() == 0 {
        Ok(GenView::Phone)
    } else {
        Err(ErrView::Macro("PHONE"@))
    }
}

impl Phone {
    /// Builds a phone-number generator; the macro takes no arguments.
    pub fn create(args: &Vec<Vec<u8>>) -> (r: Result<Generator, Error>)
        ensures
            r is Ok ==> phone_spec(args.deep_view()) == Ok::<GenView, ErrView>(r->Ok_0@)
                && gen_wf(r->Ok_0@),
            r is Err ==> phone_spec(args.deep_view()) == Err::<GenView, ErrView>(r->Err_0@),
    {
        if args.len() != 0 {
            return Err(Error::Macro(String::from_str("PHONE")));
        }
        Ok(Generator::Phone(Phone {}))
    }

    fn generate(&self, w: &mut Vec<u8>) -> (r: Result<(), Error>)
        ensures
            r is Ok,
            exists|x1: int, x2: int, x3: int|
                {
                    &&& 1 <= x1 < 1000 && 1 <= x2 < 1000 && 1 <= x3 < 10000
                    &&& final(w)@ == old(w)@ + phone_bytes(x1, x2, x3)
                },
    {
        let x1 = rand_range_u64(1, 1000);
        let x2 = rand_range_u64(1, 1000);
        let x3 = rand_range_u64(1, 10000);
        w.push(56);
        w.push(45);
        push_dec_pad(w, x1, 3);
        w.push(45);
        push_dec_pad(w, x2, 3);
        w.push(45);
        push_dec_pad(w, x3, 4);
        proof {
            assert(w@ =~= old(w)@ + phone_bytes(x1 as int, x2 as int, x3 as int));
        }
        Ok(())
    }
}

/// Emits a uniformly random date of `[lo, hi]`, in ISO form.
pub struct DateRnd {
    lo: i64,
    hi: i64,
}

impl View for DateRnd {
    type V = GenView;

    closed spec fn view(&self) -> GenView {
        GenView::DateRnd { lo: self.lo as int, hi: self.hi as int }
    }
}

/// The day bounds of a random date macro: both parsed dates in either
/// order, or, without arguments, the span from the epoch to the given
/// current day.
pub open spec fn date_rnd_spec(a: Seq<Seq<u8>>, today: int) -> Result<GenView, ErrView> {
    if a.len() == 0 {
        Ok(GenView::DateRnd {
            lo: if today < 0 {
                today
            } else {
                0
            },
            hi: if today < 0 {
                0
            } else {
                today
            },
        })
    } else if a.len() == 2 {
        let d1 = date_days_of(a[0]);
        let d2 = date_days_of(a[1]);
        if d1 is None || d2 is None {
            Err(ErrView::ParseDate)
        } else {
            Ok(GenView::DateRnd {
                lo: if d1.unwrap() <= d2.unwrap() {
                    d1.unwrap()
                } else {
                    d2.unwrap()
                },
                hi: if d1.unwrap() <= d2.unwrap() {
                    d2.unwrap()
                } else {
                    d1.unwrap()
                },
            })
        }
    } else {
        Err(ErrView::Macro("DATE_RND"@))
    }
}

impl DateRnd {
    /// Builds a random date range from zero or two ISO dates; `today`
    /// is the current day count, used when no bounds are given.
    pub fn create(args: &Vec<Vec<u8>>, today: i64) -> (r: Result<Generator, Error>)
        requires
            date_in_range(today as int),
        ensures
            r is Ok ==> date_rnd_spec(args.deep_view(), today as int) == Ok::<GenView, ErrView>(
                r->Ok_0@,
            ) && gen_wf(r->Ok_0@),
            r is Err ==> date_rnd_spec(args.deep_view(), today as int) == Err::<
                GenView,
                ErrView,
            >(r->Err_0@),
    {
        if args.len() == 0 {
            let (lo, hi): (i64, i64) = if today < 0 {
                (today, 0)
            } else {
                (0, today)
            };
            return Ok(Generator::DateRnd(DateRnd { lo, hi }));
        }
        if args.len() != 2 {
            return Err(Error::Macro(String::from_str("DATE_RND")));
        }
        proof {
            assert(args.deep_view()[0] == args@[0]@);
            assert(args.deep_view()[1] == args@[1]@);
        }
        let d1 = match parse_date_days(args[0].as_slice()) {
            Some(v) => v,
            None => {
                return Err(Error::ParseDate);
            },
        };
        let d2 = match parse_date_days(args[1].as_slice()) {
            Some(v) => v,
            None => {
                return Err(Error::ParseDate);
            },
        };
        let (lo, hi): (i64, i64) = if d1 <= d2 {
            (d1, d2)
        } else {
            (d2, d1)
        };
        Ok(Generator::DateRnd(DateRnd { lo, hi }))
    }

    fn generate(&self, w: &mut Vec<u8>) -> (r: Result<(), Error>)
        requires
            gen_wf(self@),
        ensures
            r is Ok,
            exists|d: int|
                self.lo <= d <= self.hi && final(w)@ == old(w)@ + date_str_of(d),
    {
        let width: u64 = (self.hi - self.lo) as u64;
        let d: i64 = self.lo + rand_range_u64(0, width + 1) as i64;
        match format_date_days(d) {
            Some(bytes) => {
                append_bytes(w, bytes.as_slice());
                Ok(())
            },
            None => {
                // A well-formed range keeps the day representable.
                proof {
                    assert(false);
                }
                Err(Error::ParseDate)
            },
        }
    }
}

/// Emits `start + (i mod span)` days, in ISO form, wrapping in the
/// direction of the span's sign.
pub struct DateSeq {
    start: i64,
    length: i64,
}

impl View for DateSeq {
    type V = GenView;

    closed spec fn view(&self) -> GenView {
        GenView::DateSeq { start: self.start as int, length: self.length as int }
    }
}

/// The start day and signed day span of a sequential date macro: two
/// parsed dates, or, without arguments, the epoch and the given
/// current day.
pub open spec fn date_seq_spec(a: Seq<Seq<u8>>, today: int) -> Result<GenView, ErrView> {
    if a.len() == 0 {
        Ok(GenView::DateSeq { start: 0, length: today })
    } else if a.len() == 2 {
        let d1 = date_days_of(a[0]);
        let d2 = date_days_of(a[1]);
        if d1 is None || d2 is None {
            Err(ErrView::ParseDate)
        } else {
            Ok(GenView::DateSeq { start: d1.unwrap(), length: d2.unwrap() - d1.unwrap() })
        }
    } else {
        Err(ErrView::Macro("DATE_SEQ"@))
    }
}

impl DateSeq {
    /// Builds a sequential date range from zero or two ISO dates;
    /// `today` is the current day count, used when no bounds are given.
    pub fn create(args: &Vec<Vec<u8>>, today: i64) -> (r: Result<Generator, Error>)
        requires
            date_in_range(today as int),
        ensures
            r is Ok ==> date_seq_spec(args.deep_view(), today as int) == Ok::<GenView, ErrView>(
                r->Ok_0@,
            ) && gen_wf(r->Ok_0@),
            r is Err ==> date_seq_spec(args.deep_view(), today as int) == Err::<
                GenView,
                ErrView,
            >(r->Err_0@),
    {
        if args.len() == 0 {
            return Ok(Generator::DateSeq(DateSeq { start: 0, length: today }));
        }
        if args.len() != 2 {
            return Err(Error::Macro(String::from_str("DATE_SEQ")));
        }
        proof {
            assert(args.deep_view()[0] == args@[0]@);
            assert(args.deep_view()[1] == args@[1]@);
        }
        let d1 = match parse_date_days(args[0].as_slice()) {
            Some(v) => v,
            None => {
                return Err(Error::ParseDate);
            },
        };
        let d2 = match parse_date_days(args[1].as_slice()) {
            Some(v) => v,
            None => {
                return Err(Error::ParseDate);
            },
        };
        Ok(Generator::DateSeq(DateSeq { start: d1, length: d2 - d1 }))
    }

    fn generate(&self, i: u32, w: &mut Vec<u8>) -> (r: Result<(), Error>)
        requires
            gen_wf(self@),
        ensures
            r is Ok,
            final(w)@ == old(w)@ + date_str_of(seq_day(self.start as int, self.length as int, i as int)),
    {
        let d: i64 = if self.length == 0 {
            self.start
        } else if self.length > 0 {
            self.start + (i as i64) % self.length
        } else {
            self.start - (i as i64) % (-self.length)
        };
        proof {
            assert(d == seq_day(self.start as int, self.length as int, i as int));
        }
        match format_date_days(d) {
            Some(bytes) => {
                append_bytes(w, bytes.as_slice());
                Ok(())
            },
            None => {
                // A well-formed range keeps the day representable.
                proof {
                    assert(false);
                }
                Err(Error::ParseDate)
            },
        }
    }
}

/// The two enumerated values of the boolean macro.
pub open spec fn bool_vars() -> Seq<Seq<u8>> {
    seq!["true".spec_bytes(), "false".spec_bytes()]
}

/// The two enumerated values of the gender macro.
pub open spec fn gender_vars() -> Seq<Seq<u8>> {
    seq!["Male".spec_bytes(), "Female".spec_bytes()]
}

/// The values of an explicit enumerated-choice macro: its arguments,
/// of which there must be at least one.
pub open spec fn enum_vars_spec(a: Seq<Seq<u8>>, name: Seq<char>) -> Result<
    Seq<Seq<u8>>,
    ErrView,
> {
    if a.len() == 0 {
        Err(ErrView::Macro(name))
    } else {
        Ok(a)
    }
}

/// Emits one uniformly chosen value of a fixed list, for every record.
pub struct EnumRnd {
    vars: Vec<Vec<u8>>,
}

impl View for EnumRnd {
    type V = GenView;

    closed spec fn view(&self) -> GenView {
        GenView::EnumRnd { vars: self.vars.deep_view() }
    }
}

impl EnumRnd {
    /// Builds a random enumerated choice from one or more values.
    pub fn create(args: &Vec<Vec<u8>>) -> (r: Result<Generator, Error>)
        ensures
            r is Ok ==> enum_vars_spec(args.deep_view(), "ENUM_RND"@) == Ok::<
                Seq<Seq<u8>>,
                ErrView,
            >(r->Ok_0@->EnumRnd_vars) && r->Ok_0@ is EnumRnd && gen_wf(r->Ok_0@),
            r is Err ==> enum_vars_spec(args.deep_view(), "ENUM_RND"@) == Err::<
                Seq<Seq<u8>>,
                ErrView,
            >(r->Err_0@),
    {
        if args.len() == 0 {
            return Err(Error::Macro(String::from_str("ENUM_RND")));
        }
        let vars = clone_args(args);
        Ok(Generator::EnumRnd(EnumRnd { vars }))
    }

    /// Builds the boolean choice; any arguments are ignored.
    pub fn create_boolean(_args: &Vec<Vec<u8>>) -> (r: Result<Generator, Error>)
        ensures
            r is Ok,
            r->Ok_0@ == (GenView::EnumRnd { vars: bool_vars() }),
    {
        let mut vars: Vec<Vec<u8>> = Vec::new();
        vars.push("true".as_bytes_vec());
        vars.push("false".as_bytes_vec());
        proof {
            assert(vars.deep_view()[0] == vars@[0]@);
            assert(vars.deep_view()[1] == vars@[1]@);
            assert(vars.deep_view() =~~= bool_vars());
        }
        Ok(Generator::EnumRnd(EnumRnd { vars }))
    }

    /// Builds the gender choice; any arguments are ignored.
    pub fn create_gender(_args: &Vec<Vec<u8>>) -> (r: Result<Generator, Error>)
        ensures
            r is Ok,
            r->Ok_0@ == (GenView::EnumRnd { vars: gender_vars() }),
    {
        let mut vars: Vec<Vec<u8>> = Vec::new();
        vars.push("Male".as_bytes_vec());
        vars.push("Female".as_bytes_vec());
        proof {
            assert(vars.deep_view()[0] == vars@[0]@);
            assert(vars.deep_view()[1] == vars@[1]@);
            assert(vars.deep_view() =~~= gender_vars());
        }
        Ok(Generator::EnumRnd(EnumRnd { vars }))
    }

    /// Builds a random choice over the supplied timezone names; an
    /// empty list is the recoverable absence of that capability.
    pub fn create_time_zone(zones: &Vec<Vec<u8>>) -> (r: Result<Generator, Error>)
        ensures
            r is Ok <==> zones.deep_view().len() > 0,
            r is Ok ==> r->Ok_0@ == (GenView::EnumRnd { vars: zones.deep_view() }),
            r is Err ==> r->Err_0@ == ErrView::Io("no timezone names are available"@),
    {
        if zones.len() == 0 {
            return Err(Error::Io(String::from_str("no timezone names are available")));
        }
        let vars = clone_args(zones);
        Ok(Generator::EnumRnd(EnumRnd { vars }))
    }

    fn generate(&self, w: &mut Vec<u8>) -> (r: Result<(), Error>)
        requires
            gen_wf(self@),
        ensures
            r is Ok,
            exists|k: int|
                0 <= k < self.vars.deep_view().len() && final(w)@ == old(w)@
                    + self.vars.deep_view()[k],
    {
        let k = rand_index(self.vars.len());
        append_bytes(w, self.vars[k].as_slice());
        proof {
            assert(self.vars.deep_view()[k as int] == self.vars@[k as int]@);
        }
        Ok(())
    }
}

/// Emits `values[i mod len]` for record index `i`.
pub struct EnumSeq {
    vars: Vec<Vec<u8>>,
}

impl View for EnumSeq {
    type V = GenView;

    closed spec fn view(&self) -> GenView {
        GenView::EnumSeq { vars: self.vars.deep_view() }
    }
}

impl EnumSeq {
    /// Builds a sequential enumerated choice from one or more values.
    pub fn create(args: &Vec<Vec<u8>>) -> (r: Result<Generator, Error>)
        ensures
            r is Ok ==> enum_vars_spec(args.deep_view(), "ENUM_SEQ"@) == Ok::<
                Seq<Seq<u8>>,
                ErrView,
            >(r->Ok_0@->EnumSeq_vars) && r->Ok_0@ is EnumSeq && gen_wf(r->Ok_0@),
            r is Err ==> enum_vars_spec(args.deep_view(), "ENUM_SEQ"@) == Err::<
                Seq<Seq<u8>>,
                ErrView,
            >(r->Err_0@),
    {
        if args.len() == 0 {
            return Err(Error::Macro(String::from_str("ENUM_SEQ")));
        }
        let vars = clone_args(args);
        Ok(Generator::EnumSeq(EnumSeq { vars }))
    }

    fn generate(&self, i: u32, w: &mut Vec<u8>) -> (r: Result<(), Error>)
        requires
            gen_wf(self@),
        ensures
            r is Ok,
            final(w)@ == old(w)@ + self.vars.deep_view()[(i as int) % self.vars.deep_view().len() as int],
    {
        let k: usize = ((i as u64) % (self.vars.len() as u64)) as usize;
        append_bytes(w, self.vars[k].as_slice());
        proof {
            assert(self.vars.deep_view()[k as int] == self.vars@[k as int]@);
        }
        Ok(())
    }
}

/// A fresh copy of an argument list.
fn clone_args(args: &Vec<Vec<u8>>) -> (r: Vec<Vec<u8>>)
    ensures
        r.deep_view() == args.deep_view(),
{
    let mut out: Vec<Vec<u8>> = Vec::new();
    let n = args.len();
    let mut k: usize = 0;
    while k < n
        invariant
            k <= n,
            n == args@.len(),
            out@.len() == k,
            forall|j: int| 0 <= j < k ==> out@[j]@ == args@[j]@,
        decreases n - k,
    {
        out.push(crate::util::clone_bytes(&args[k]));
        k = k + 1;
    }
    proof {
        assert forall|j: int| 0 <= j < n implies out.deep_view()[j] == args.deep_view()[j] by {
            assert(out.deep_view()[j] == out@[j]@);
            assert(args.deep_view()[j] == args@[j]@);
        }
        assert(out.deep_view() =~= args.deep_view());
    }
    out
}

/// Samples a uniformly random line of a built-in corpus, every record.
pub struct BytesRnd {
    bytes: Vec<u8>,
}

impl View for BytesRnd {
    type V = GenView;

    closed spec fn view(&self) -> GenView {
        GenView::BytesRnd { data: self.bytes@ }
    }
}

impl BytesRnd {
    /// Builds a random sampler over the first-name corpus.
    pub fn create_first(_args: &Vec<Vec<u8>>) -> (r: Result<Generator, Error>)
        ensures
            r is Ok <==> crate::corpus::first_corpus().len() > 0,
            r is Ok ==> r->Ok_0@ == (GenView::BytesRnd { data: crate::corpus::first_corpus() }),
            r is Err ==> r->Err_0@ is EmptyCorpus,
    {
        Self::from_corpus(crate::corpus::corpus_first())
    }

    /// Builds a random sampler over the last-name corpus.
    pub fn create_last(_args: &Vec<Vec<u8>>) -> (r: Result<Generator, Error>)
        ensures
            r is Ok <==> crate::corpus::last_corpus().len() > 0,
            r is Ok ==> r->Ok_0@ == (GenView::BytesRnd { data: crate::corpus::last_corpus() }),
            r is Err ==> r->Err_0@ is EmptyCorpus,
    {
        Self::from_corpus(crate::corpus::corpus_last())
    }

    /// Builds a random sampler over the domain corpus.
    pub fn create_domain(_args: &Vec<Vec<u8>>) -> (r: Result<Generator, Error>)
        ensures
            r is Ok <==> crate::corpus::domain_corpus().len() > 0,
            r is Ok ==> r->Ok_0@ == (GenView::BytesRnd { data: crate::corpus::domain_corpus() }),
            r is Err ==> r->Err_0@ is EmptyCorpus,
    {
        Self::from_corpus(crate::corpus::corpus_domain())
    }

    /// Builds a random sampler over the country-code corpus.
    pub fn create_country_code(_args: &Vec<Vec<u8>>) -> (r: Result<Generator, Error>)
        ensures
            r is Ok <==> crate::corpus::country_code_corpus().len() > 0,
            r is Ok ==> r->Ok_0@ == (GenView::BytesRnd {
                data: crate::corpus::country_code_corpus(),
            }),
            r is Err ==> r->Err_0@ is EmptyCorpus,
    {
        Self::from_corpus(crate::corpus::corpus_country_code())
    }

    /// Wraps corpus bytes, rejecting an empty buffer.
    fn from_corpus(bytes: Vec<u8>) -> (r: Result<Generator, Error>)
        ensures
            r is Ok <==> bytes@.len() > 0,
            r is Ok ==> r->Ok_0@ == (GenView::BytesRnd { data: bytes@ }),
            r is Err ==> r->Err_0@ is EmptyCorpus,
    {
        if bytes.len() == 0 {
            return Err(Error::EmptyCorpus);
        }
        Ok(Generator::BytesRnd(BytesRnd { bytes }))
    }

    fn generate(&self, w: &mut Vec<u8>) -> (r: Result<(), Error>)
        requires
            gen_wf(self@),
        ensures
            r is Ok,
            exists|off: int|
                0 <= off < self.bytes@.len() && final(w)@ == old(w)@ + line_at(self.bytes@, off),
    {
        let line = random_line(self.bytes.as_slice());
        append_bytes(w, line);
        Ok(())
    }
}

/// Walks the lines of a built-in corpus in order, wrapping at the end.
pub struct BytesSeq {
    bytes: Vec<u8>,
    offset: usize,
}

impl View for BytesSeq {
    type V = GenView;

    closed spec fn view(&self) -> GenView {
        GenView::BytesSeq { data: self.bytes@, offset: self.offset as int }
    }
}

impl BytesSeq {
    /// Builds a sequential cursor over the first-name corpus.
    pub fn create_first(_args: &Vec<Vec<u8>>) -> (r: Result<Generator, Error>)
        ensures
            r is Ok <==> crate::corpus::first_corpus().len() > 0,
            r is Ok ==> r->Ok_0@ == (GenView::BytesSeq {
                data: crate::corpus::first_corpus(),
                offset: 0,
            }),
            r is Err ==> r->Err_0@ is EmptyCorpus,
    {
        Self::from_corpus(crate::corpus::corpus_first())
    }

    /// Builds a sequential cursor over the last-name corpus.
    pub fn create_last(_args: &Vec<Vec<u8>>) -> (r: Result<Generator, Error>)
        ensures
            r is Ok <==> crate::corpus::last_corpus().len() > 0,
            r is Ok ==> r->Ok_0@ == (GenView::BytesSeq {
                data: crate::corpus::last_corpus(),
                offset: 0,
            }),
            r is Err ==> r->Err_0@ is EmptyCorpus,
    {
        Self::from_corpus(crate::corpus::corpus_last())
    }

    /// Builds a sequential cursor over the domain corpus.
    pub fn create_domain(_args: &Vec<Vec<u8>>) -> (r: Result<Generator, Error>)
        ensures
            r is Ok <==> crate::corpus::domain_corpus().len() > 0,
            r is Ok ==> r->Ok_0@ == (GenView::BytesSeq {
                data: crate::corpus::domain_corpus(),
                offset: 0,
            }),
            r is Err ==> r->Err_0@ is EmptyCorpus,
    {
        Self::from_corpus(crate::corpus::corpus_domain())
    }

    /// Builds a sequential cursor over the country-code corpus.
    pub fn create_country_code(_args: &Vec<Vec<u8>>) -> (r: Result<Generator, Error>)
        ensures
            r is Ok <==> crate::corpus::country_code_corpus().len() > 0,
            r is Ok ==> r->Ok_0@ == (GenView::BytesSeq {
                data: crate::corpus::country_code_corpus(),
                offset: 0,
            }),
            r is Err ==> r->Err_0@ is EmptyCorpus,
    {
        Self::from_corpus(crate::corpus::corpus_country_code())
    }

    /// Wraps corpus bytes, rejecting an empty buffer.
    fn from_corpus(bytes: Vec<u8>) -> (r: Result<Generator, Error>)
        ensures
            r is Ok <==> bytes@.len() > 0,
            r is Ok ==> r->Ok_0@ == (GenView::BytesSeq { data: bytes@, offset: 0 }),
            r is Err ==> r->Err_0@ is EmptyCorpus,
    {
        if bytes.len() == 0 {
            return Err(Error::EmptyCorpus);
        }
        Ok(Generator::BytesSeq(BytesSeq { bytes, offset: 0 }))
    }

    fn generate(&mut self, w: &mut Vec<u8>) -> (r: Result<(), Error>)
        requires
            gen_wf(old(self)@),
        ensures
            r is Ok,
            gen_wf(final(self)@),
            final(self)@ == (GenView::BytesSeq {
                data: old(self).bytes@,
                offset: next_offset(old(self).bytes@, old(self).offset as int),
            }),
            final(w)@ == old(w)@ + old(self).bytes@.subrange(
                old(self).offset as int,
                line_end(old(self).bytes@, old(self).offset as int),
            ),
    {
        let mut off = self.offset;
        let line = next_line(self.bytes.as_slice(), &mut off);
        append_bytes(w, line);
        self.offset = off;
        Ok(())
    }
}

/// The path of a file-line macro, which must be its only argument.
pub open spec fn file_path_spec(a: Seq<Seq<u8>>, name: Seq<char>) -> Result<Seq<u8>, ErrView> {
    if a.len() == 1 {
        Ok(a[0])
    } else {
        Err(ErrView::Macro(name))
    }
}

/// Samples a uniformly random line of a caller-attached file buffer.
pub struct FileRnd {
    path: Vec<u8>,
    data: Option<Vec<u8>>,
}

impl View for FileRnd {
    type V = GenView;

    closed spec fn view(&self) -> GenView {
        GenView::FileRnd {
            path: self.path@,
            data: match &self.data {
                Some(d) => Some(d@),
                None => None,
            },
        }
    }
}

impl FileRnd {
    /// Builds a random file-line sampler from a single path argument;
    /// the file's bytes are attached separately.
    pub fn create(args: &Vec<Vec<u8>>) -> (r: Result<Generator, Error>)
        ensures
            r is Ok ==> file_path_spec(args.deep_view(), "FILE_RND"@) == Ok::<Seq<u8>, ErrView>(
                r->Ok_0@->FileRnd_path,
            ) && r->Ok_0@ == (GenView::FileRnd { path: args.deep_view()[0], data: None })
                && gen_wf(r->Ok_0@),
            r is Err ==> file_path_spec(args.deep_view(), "FILE_RND"@) == Err::<
                Seq<u8>,
                ErrView,
            >(r->Err_0@),
    {
        if args.len() != 1 {
            return Err(Error::Macro(String::from_str("FILE_RND")));
        }
        proof {
            assert(args.deep_view()[0] == args@[0]@);
        }
        let path = crate::util::clone_bytes(&args[0]);
        Ok(Generator::FileRnd(FileRnd { path, data: None }))
    }

    fn attach(&mut self, bytes: Vec<u8>) -> (r: Result<(), Error>)
        ensures
            match r {
                Ok(()) => final(self)@ == (GenView::FileRnd {
                    path: old(self).path@,
                    data: Some(bytes@),
                }) && gen_wf(final(self)@),
                Err(e) => {
                    &&& e@ is EmptyCorpus
                    &&& bytes@.len() == 0
                    &&& *final(self) == *old(self)
                },
            },
    {
        if bytes.len() == 0 {
            return Err(Error::EmptyCorpus);
        }
        self.data = Some(bytes);
        Ok(())
    }

    fn generate(&self, w: &mut Vec<u8>) -> (r: Result<(), Error>)
        requires
            gen_wf(self@),
        ensures
            match r {
                Ok(()) => {
                    &&& gen_ready(self@)
                    &&& exists|off: int|
                        0 <= off < self@->FileRnd_data.unwrap().len() && final(w)@ == old(w)@
                            + line_at(self@->FileRnd_data.unwrap(), off)
                },
                Err(e) => {
                    &&& !gen_ready(self@)
                    &&& final(w)@ == old(w)@
                    &&& e@ is Io
                },
            },
    {
        match &self.data {
            Some(d) => {
                let line = random_line(d.as_slice());
                append_bytes(w, line);
                Ok(())
            },
            None => Err(Error::Io(String::from_str("file bytes are not attached"))),
        }
    }
}

/// Walks the lines of a caller-attached file buffer in order, wrapping
/// at the end.
pub struct FileSeq {
    path: Vec<u8>,
    data: Option<Vec<u8>>,
    offset: usize,
}

impl View for FileSeq {
    type V = GenView;

    closed spec fn view(&self) -> GenView {
        GenView::FileSeq {
            path: self.path@,
            data: match &self.data {
                Some(d) => Some(d@),
                None => None,
            },
            offset: self.offset as int,
        }
    }
}

impl FileSeq {
    /// Builds a sequential file-line cursor from a single path
    /// argument; the file's bytes are attached separately.
    pub fn create(args: &Vec<Vec<u8>>) -> (r: Result<Generator, Error>)
        ensures
            r is Ok ==> file_path_spec(args.deep_view(), "FILE_SEQ"@) == Ok::<Seq<u8>, ErrView>(
                r->Ok_0@->FileSeq_path,
            ) && r->Ok_0@ == (GenView::FileSeq {
                path: args.deep_view()[0],
                data: None,
                offset: 0,
            }) && gen_wf(r->Ok_0@),
            r is Err ==> file_path_spec(args.deep_view(), "FILE_SEQ"@) == Err::<
                Seq<u8>,
                ErrView,
            >(r->Err_0@),
    {
        if args.len() != 1 {
            return Err(Error::Macro(String::from_str("FILE_SEQ")));
        }
        proof {
            assert(args.deep_view()[0] == args@[0]@);
        }
        let path = crate::util::clone_bytes(&args[0]);
        Ok(Generator::FileSeq(FileSeq { path, data: None, offset: 0 }))
    }

    fn attach(&mut self, bytes: Vec<u8>) -> (r: Result<(), Error>)
        ensures
            match r {
                Ok(()) => final(self)@ == (GenView::FileSeq {
                    path: old(self).path@,
                    data: Some(bytes@),
                    offset: 0,
                }) && gen_wf(final(self)@),
                Err(e) => {
                    &&& e@ is EmptyCorpus
                    &&& bytes@.len() == 0
                    &&& *final(self) == *old(self)
                },
            },
    {
        if bytes.len() == 0 {
            return Err(Error::EmptyCorpus);
        }
        self.data = Some(bytes);
        self.offset = 0;
        Ok(())
    }

    fn generate(&mut self, w: &mut Vec<u8>) -> (r: Result<(), Error>)
        requires
            gen_wf(old(self)@),
        ensures
            gen_wf(final(self)@),
            match r {
                Ok(()) => {
                    &&& gen_ready(old(self)@)
                    &&& final(self)@ == (GenView::FileSeq {
                        path: old(self).path@,
                        data: old(self)@->FileSeq_data,
                        offset: next_offset(
                            old(self)@->FileSeq_data.unwrap(),
                            old(self).offset as int,
                        ),
                    })
                    &&& final(w)@ == old(w)@ + old(self)@->FileSeq_data.unwrap().subrange(
                        old(self).offset as int,
                        line_end(old(self)@->FileSeq_data.unwrap(), old(self).offset as int),
                    )
                },
                Err(e) => {
                    &&& !gen_ready(old(self)@)
                    &&& *final(self) == *old(self)
                    &&& final(w)@ == old(w)@
                    &&& e@ is Io
                },
            },
    {
        match &self.data {
            Some(d) => {
                let mut off = self.offset;
                let line = next_line(d.as_slice(), &mut off);
                append_bytes(w, line);
                self.offset = off;
                Ok(())
            },
            None => Err(Error::Io(String::from_str("file bytes are not attached"))),
        }
    }
}

/// The generator of one compiled template span: a closed set of
/// variants, dispatched exhaustively.
pub enum Generator {
    Text(Text),
    RowNum(RowNum),
    IntSeq(IntSeq),
    IntRnd(IntRnd),
    DateRnd(DateRnd),
    DateSeq(DateSeq),
    Uuid4(Uuid4),
    IpV4(IpV4),
    Timestamp(Timestamp),
    EnumRnd(EnumRnd),
    EnumSeq(EnumSeq),
    Phone(Phone),
    BytesRnd(BytesRnd),
    BytesSeq(BytesSeq),
    FileRnd(FileRnd),
    FileSeq(FileSeq),
}

impl View for Generator {
    type V = GenView;

    closed spec fn view(&self) -> GenView {
        match self {
            Generator::Text(g) => g@,
            Generator::RowNum(g) => g@,
            Generator::IntSeq(g) => g@,
            Generator::IntRnd(g) => g@,
            Generator::DateRnd(g) => g@,
            Generator::DateSeq(g) => g@,
            Generator::Uuid4(g) => g@,
            Generator::IpV4(g) => g@,
            Generator::Timestamp(g) => g@,
            Generator::EnumRnd(g) => g@,
            Generator::EnumSeq(g) => g@,
            Generator::Phone(g) => g@,
            Generator::BytesRnd(g) => g@,
            Generator::BytesSeq(g) => g@,
            Generator::FileRnd(g) => g@,
            Generator::FileSeq(g) => g@,
        }
    }
}

impl Generator {
    /// Appends this generator's output for record `i` to `w` and
    /// advances any internal cursor.
    pub fn generate(&mut self, i: u32, w: &mut Vec<u8>) -> (r: Result<(), Error>)
        requires
            gen_wf(old(self)@),
        ensures
            gen_wf(final(self)@),
            match r {
                Ok(()) => gen_ready(old(self)@) && exists|out: Seq<u8>|
                    final(w)@ == old(w)@ + out && gen_output_ok(
                        old(self)@,
                        final(self)@,
                        i as int,
                        out,
                    ),
                Err(e) => {
                    &&& !gen_ready(old(self)@)
                    &&& *final(self) == *old(self)
                    &&& final(w)@ == old(w)@
                    &&& e@ is Io
                },
            },
    {
        match self {
            Generator::Text(g) => {
                let r = g.generate(w);
                proof {
                    assert(gen_output_ok(old(self)@, self@, i as int, g.text@));
                }
                r
            },
            Generator::RowNum(g) => {
                let r = g.generate(i, w);
                proof {
                    assert(gen_output_ok(
                        old(self)@,
                        self@,
                        i as int,
                        dec_i64(g.start + i as int),
                    ));
                }
                r
            },
            Generator::IntSeq(g) => {
                let r = g.generate(i, w);
                proof {
                    let m = if g.end - g.start >= 0 {
                        g.end - g.start
                    } else {
                        g.start as int - g.end
                    };
                    assert(gen_output_ok(
                        old(self)@,
                        self@,
                        i as int,
                        dec_i64(g.start + ((i as int) % m)),
                    ));
                }
                r
            },
            Generator::IntRnd(g) => {
                let r = g.generate(w);
                proof {
                    let v = choose|v: int|
                        g.start <= v < g.end && w@ == old(w)@ + dec_i64(v);
                    assert(gen_output_ok(old(self)@, self@, i as int, dec_i64(v)));
                }
                r
            },
            Generator::Uuid4(g) => {
                let r = g.generate(w);
                proof {
                    let out = choose|out: Seq<u8>| w@ == old(w)@ + out && is_uuid_v4(out);
                    assert(gen_output_ok(old(self)@, self@, i as int, out));
                }
                r
            },
            Generator::IpV4(g) => {
                let r = g.generate(w);
                proof {
                    let (o1, o2, o3, o4) = choose|o1: int, o2: int, o3: int, o4: int|
                        {
                            &&& 1 <= o1 <= 254 && 1 <= o2 <= 254 && 1 <= o3 <= 254 && 1 <= o4
                                <= 254
                            &&& w@ == old(w)@ + ip_bytes(o1, o2, o3, o4)
                        };
                    assert(gen_output_ok(old(self)@, self@, i as int, ip_bytes(o1, o2, o3, o4)));
                }
                r
            },
            Generator::Timestamp(g) => {
                let r = g.generate(w);
                proof {
                    let out = choose|out: Seq<u8>|
                        w@ == old(w)@ + out && crate::dates::is_rfc3339_like(out);
                    assert(gen_output_ok(old(self)@, self@, i as int, out));
                }
                r
            },
            Generator::Phone(g) => {
                let r = g.generate(w);
                proof {
                    let (x1, x2, x3) = choose|x1: int, x2: int, x3: int|
                        {
                            &&& 1 <= x1 < 1000 && 1 <= x2 < 1000 && 1 <= x3 < 10000
                            &&& w@ == old(w)@ + phone_bytes(x1, x2, x3)
                        };
                    assert(gen_output_ok(old(self)@, self@, i as int, phone_bytes(x1, x2, x3)));
                }
                r
            },
            Generator::DateRnd(g) => {
                let r = g.generate(w);
                proof {
                    let d = choose|d: int|
                        g.lo <= d <= g.hi && w@ == old(w)@ + date_str_of(d);
                    assert(gen_output_ok(old(self)@, self@, i as int, date_str_of(d)));
                }
                r
            },
            Generator::DateSeq(g) => {
                let r = g.generate(i, w);
                proof {
                    assert(gen_output_ok(
                        old(self)@,
                        self@,
                        i as int,
                        date_str_of(seq_day(g.start as int, g.length as int, i as int)),
                    ));
                }
                r
            },
            Generator::EnumRnd(g) => {
                let r = g.generate(w);
                proof {
                    let k = choose|k: int|
                        0 <= k < g.vars.deep_view().len() && w@ == old(w)@ + g.vars.deep_view()[k];
                    assert(gen_output_ok(old(self)@, self@, i as int, g.vars.deep_view()[k]));
                }
                r
            },
            Generator::EnumSeq(g) => {
                let r = g.generate(i, w);
                proof {
                    assert(gen_output_ok(
                        old(self)@,
                        self@,
                        i as int,
                        g.vars.deep_view()[(i as int) % g.vars.deep_view().len() as int],
                    ));
                }
                r
            },
            Generator::BytesRnd(g) => {
                let r = g.generate(w);
                proof {
                    let off = choose|off: int|
                        0 <= off < g.bytes@.len() && w@ == old(w)@ + line_at(g.bytes@, off);
                    assert(gen_output_ok(old(self)@, self@, i as int, line_at(g.bytes@, off)));
                }
                r
            },
            Generator::BytesSeq(g) => {
                let ghost b = g@;
                let r = g.generate(w);
                proof {
                    assert(gen_output_ok(
                        old(self)@,
                        self@,
                        i as int,
                        b->BytesSeq_data.subrange(
                            b->BytesSeq_offset,
                            line_end(b->BytesSeq_data, b->BytesSeq_offset),
                        ),
                    ));
                }
                r
            },
            Generator::FileRnd(g) => {
                let r = g.generate(w);
                proof {
                    if r is Ok {
                        let off = choose|off: int|
                            0 <= off < g@->FileRnd_data.unwrap().len() && w@ == old(w)@ + line_at(
                                g@->FileRnd_data.unwrap(),
                                off,
                            );
                        assert(gen_output_ok(
                            old(self)@,
                            self@,
                            i as int,
                            line_at(g@->FileRnd_data.unwrap(), off),
                        ));
                    }
                }
                r
            },
            Generator::FileSeq(g) => {
                let ghost b = g@;
                let r = g.generate(w);
                proof {
                    if r is Ok {
                        assert(gen_output_ok(
                            old(self)@,
                            self@,
                            i as int,
                            b->FileSeq_data.unwrap().subrange(
                                b->FileSeq_offset,
                                line_end(b->FileSeq_data.unwrap(), b->FileSeq_offset),
                            ),
                        ));
                    }
                }
                r
            },
        }
    }
}

} // verus!

verus! {

/// Every generator of the list is internally consistent.
pub open spec fn comp_wf(gs: Seq<GenView>) -> bool {
    forall|j: int| 0 <= j < gs.len() ==> gen_wf(#[trigger] gs[j])
}

/// Every generator of the list has its data attached.
pub open spec fn comp_ready(gs: Seq<GenView>) -> bool {
    forall|j: int| 0 <= j < gs.len() ==> gen_ready(#[trigger] gs[j])
}

/// What one record body may be: the concatenation, in order, of one
/// acceptable output per generator, with each generator's state moving
/// as its own relation says.
pub open spec fn gens_ok(b: Seq<GenView>, a: Seq<GenView>, i: int, out: Seq<u8>) -> bool
    decreases b.len(),
{
    if b.len() == 0 {
        a.len() == 0 && out == Seq::<u8>::empty()
    } else {
        &&& a.len() == b.len()
        &&& exists|o1: Seq<u8>, o2: Seq<u8>|
            {
                &&& out == o1 + o2
                &&& gens_ok(b.drop_last(), a.drop_last(), i, o1)
                &&& gen_output_ok(b.last(), a.last(), i, o2)
            }
    }
}

/// The views of a list of generators.
pub open spec fn views_of(gs: Seq<Generator>) -> Seq<GenView> {
    gs.map_values(|g: Generator| g@)
}

/// Indexing the views of a list gives the view of the indexed entry.
pub proof fn lemma_views_index(gs: Seq<Generator>, k: int)
    requires
        0 <= k < gs.len(),
    ensures
        views_of(gs).len() == gs.len(),
        views_of(gs)[k] == gs[k]@,
{
}

/// One compiled template: its generators in source order. Invoking it
/// once per record index appends each generator's output and a
/// terminating newline to the sink.
pub struct Composite {
    gens: Vec<Generator>,
}

impl View for Composite {
    type V = Seq<GenView>;

    closed spec fn view(&self) -> Seq<GenView> {
        views_of(self.gens@)
    }
}

impl Composite {
    /// Wraps an ordered list of generators.
    pub fn new(gens: Vec<Generator>) -> (r: Composite)
        ensures
            r@ == views_of(gens@),
    {
        Composite { gens }
    }

    /// How many generators the compiled template holds.
    pub fn size(&self) -> (r: usize)
        ensures
            r == self@.len(),
    {
        self.gens.len()
    }

    /// The path of the generator at `idx`, when it is a file-backed
    /// generator still waiting for its bytes.
    pub fn pending_path(&self, idx: usize) -> (r: Option<Vec<u8>>)
        requires
            idx < self@.len(),
        ensures
            match r {
                Some(p) => {
                    &&& !gen_ready(self@[idx as int])
                    &&& (self@[idx as int] matches GenView::FileRnd { path, .. } ==> p@ == path)
                    &&& (self@[idx as int] matches GenView::FileSeq { path, .. } ==> p@ == path)
                },
                None => gen_ready(self@[idx as int]),
            },
    {
        match &self.gens[idx] {
            Generator::FileRnd(g) => match &g.data {
                None => Some(crate::util::clone_bytes(&g.path)),
                Some(_) => None,
            },
            Generator::FileSeq(g) => match &g.data {
                None => Some(crate::util::clone_bytes(&g.path)),
                Some(_) => None,
            },
            _ => None,
        }
    }

    /// Attaches file bytes to the file-backed generator at `idx`.
    /// Rejects an index that names no file-backed generator, and empty
    /// bytes, which would leave random sampling undefined.
    pub fn attach_file(&mut self, idx: usize, bytes: Vec<u8>) -> (r: Result<(), Error>)
        requires
            comp_wf(old(self)@),
        ensures
            comp_wf(final(self)@),
            r is Ok <==> idx < old(self)@.len() && (old(self)@[idx as int] is FileRnd || old(
                self,
            )@[idx as int] is FileSeq) && bytes@.len() > 0,
            match r {
                Ok(()) => {
                    &&& idx < old(self)@.len()
                    &&& final(self)@ == old(self)@.update(
                        idx as int,
                        attach_view(old(self)@[idx as int], bytes@),
                    )
                    &&& (old(self)@[idx as int] is FileRnd || old(self)@[idx as int] is FileSeq)
                },
                Err(e) => {
                    &&& final(self)@ == old(self)@
                    &&& (e@ is EmptyCorpus || e@ is Io)
                },
            },
    {
        if idx >= self.gens.len() {
            return Err(Error::Io(String::from_str("no generator at this index")));
        }
        let ghost gens_prev = self.gens@;
        let r = self.gens[idx].attach_bytes(bytes);
        proof {
            lemma_views_index(self.gens@, idx as int);
            lemma_views_index(gens_prev, idx as int);
            assert forall|j: int|
                0 <= j < self@.len() && j != idx implies self@[j] == old(self)@[j] by {
                lemma_views_index(self.gens@, j);
                lemma_views_index(gens_prev, j);
            }
            if r is Ok {
                assert(self@ =~= old(self)@.update(
                    idx as int,
                    attach_view(old(self)@[idx as int], bytes@),
                ));
            } else {
                assert(self@ =~= old(self)@);
            }
            assert forall|j: int| 0 <= j < self@.len() implies gen_wf(#[trigger] self@[j]) by {
                if j != idx {
                    assert(self@[j] == old(self)@[j]);
                }
            }
        }
        r
    }

    /// Appends one record for index `i` to `w`: each generator's output
    /// in order, then a newline. Fails, leaving the sink unchanged,
    /// when a file-backed generator still waits for its bytes.
    pub fn generate(&mut self, i: u32, w: &mut Vec<u8>) -> (r: Result<(), Error>)
        requires
            comp_wf(old(self)@),
        ensures
            comp_wf(final(self)@),
            match r {
                Ok(()) => {
                    &&& comp_ready(old(self)@)
                    &&& exists|body: Seq<u8>|
                        {
                            &&& final(w)@ == old(w)@ + body + seq![10u8]
                            &&& gens_ok(old(self)@, final(self)@, i as int, body)
                        }
                },
                Err(e) => {
                    &&& !comp_ready(old(self)@)
                    &&& final(self)@ == old(self)@
                    &&& final(w)@ == old(w)@
                    &&& e@ is Io
                },
            },
    {
        let n = self.gens.len();
        let mut k: usize = 0;
        while k < n
            invariant
                k <= n,
                n == self.gens@.len(),
                self@ == old(self)@,
                w@ == old(w)@,
                comp_wf(self@),
                forall|j: int| 0 <= j < k ==> gen_ready(#[trigger] self@[j]),
            decreases n - k,
        {
            proof {
                assert(self@[k as int] == self.gens@[k as int]@);
            }
            if !self.gens[k].is_ready() {
                return Err(Error::Io(String::from_str("file bytes are not attached")));
            }
            k = k + 1;
        }
        let ghost w0 = w@;
        let ghost b = self@;
        let ghost mut acc: Seq<u8> = Seq::empty();
        let mut k: usize = 0;
        proof {
            assert(b.take(0) =~= Seq::<GenView>::empty());
            assert(w@ =~= w0 + acc);
        }
        while k < n
            invariant
                k <= n,
                n == self.gens@.len(),
                b == old(self)@,
                b.len() == n,
                comp_wf(self@),
                comp_ready(b),
                w@ == w0 + acc,
                w0 == old(w)@,
                gens_ok(b.take(k as int), self@.take(k as int), i as int, acc),
                forall|j: int| k <= j < n ==> self@[j] == b[j],
                self@.len() == n,
            decreases n - k,
        {
            let ghost wp = w@;
            let ghost sp = self@;
            proof {
                lemma_views_index(self.gens@, k as int);
                assert(sp[k as int] == b[k as int]);
                assert(gen_ready(b[k as int]));
            }
            let res = self.gens[k].generate(i, w);
            proof {
                lemma_views_index(self.gens@, k as int);
                assert forall|j: int|
                    0 <= j < n && j != k implies self@[j] == sp[j] by {
                    lemma_views_index(self.gens@, j);
                }
            }
            if res.is_err() {
                // A generator that passed the readiness check cannot fail.
                proof {
                    assert(false);
                }
                return Err(Error::Io(String::from_str("file bytes are not attached")));
            }
            proof {
                let out = choose|out: Seq<u8>|
                    w@ == wp + out && gen_output_ok(sp[k as int], self@[k as int], i as int, out);
                lemma_gens_ok_step(b, sp, self@, i as int, acc, out, k as int);
                acc = acc + out;
                assert(w@ =~= w0 + acc);
                assert forall|j: int| 0 <= j < n implies gen_wf(#[trigger] self@[j]) by {
                    if j != k {
                        assert(self@[j] == sp[j]);
                    }
                }
                assert forall|j: int| k + 1 <= j < n implies self@[j] == b[j] by {
                    assert(self@[j] == sp[j]);
                }
            }
            k = k + 1;
        }
        w.push(10);
        proof {
            assert(b.take(n as int) =~= b);
            assert(self@.take(n as int) =~= self@);
            assert(w@ =~= w0 + acc + seq![10u8]);
        }
        Ok(())
    }
}

/// One generator call extends an acceptable record body by one
/// acceptable output.
proof fn lemma_gens_ok_step(
    b: Seq<GenView>,
    a_prev: Seq<GenView>,
    a_now: Seq<GenView>,
    i: int,
    acc: Seq<u8>,
    out: Seq<u8>,
    k: int,
)
    requires
        0 <= k < b.len(),
        a_prev.len() == b.len(),
        a_now.len() == b.len(),
        gens_ok(b.take(k), a_prev.take(k), i, acc),
        forall|j: int| 0 <= j < k ==> a_now[j] == a_prev[j],
        forall|j: int| k <= j < b.len() ==> a_prev[j] == b[j],
        gen_output_ok(b[k], a_now[k], i, out),
    ensures
        gens_ok(b.take(k + 1), a_now.take(k + 1), i, acc + out),
{
    assert(a_now.take(k) =~= a_prev.take(k));
    assert(b.take(k + 1).drop_last() =~= b.take(k));
    assert(a_now.take(k + 1).drop_last() =~= a_now.take(k));
    assert(b.take(k + 1).last() == b[k]);
    assert(a_now.take(k + 1).last() == a_now[k]);
    assert(gens_ok(b.take(k + 1), a_now.take(k + 1), i, acc + out));
}

/// The generator view after file bytes are attached to it.
pub open spec fn attach_view(g: GenView, bytes: Seq<u8>) -> GenView {
    match g {
        GenView::FileRnd { path, .. } => GenView::FileRnd { path, data: Some(bytes) },
        GenView::FileSeq { path, .. } => GenView::FileSeq { path, data: Some(bytes), offset: 0 },
        _ => g,
    }
}

impl Generator {
    /// Attaches file bytes to a file-backed generator; any other
    /// variant rejects them.
    pub fn attach_bytes(&mut self, bytes: Vec<u8>) -> (r: Result<(), Error>)
        requires
            gen_wf(old(self)@),
        ensures
            gen_wf(final(self)@),
            r is Ok <==> (old(self)@ is FileRnd || old(self)@ is FileSeq) && bytes@.len() > 0,
            match r {
                Ok(()) => {
                    &&& (old(self)@ is FileRnd || old(self)@ is FileSeq)
                    &&& final(self)@ == attach_view(old(self)@, bytes@)
                },
                Err(e) => {
                    &&& final(self)@ == old(self)@
                    &&& (e@ is EmptyCorpus || e@ is Io)
                },
            },
    {
        match self {
            Generator::FileRnd(g) => g.attach(bytes),
            Generator::FileSeq(g) => g.attach(bytes),
            _ => Err(Error::Io(String::from_str("the generator takes no file"))),
        }
    }

    /// True when the generator has every data source it needs.
    pub fn is_ready(&self) -> (r: bool)
        ensures
            r == gen_ready(self@),
    {
        match self {
            Generator::FileRnd(g) => g.data.is_some(),
            Generator::FileSeq(g) => g.data.is_some(),
            _ => true,
        }
    }
}

} // verus!

verus! {

/// A bounded random integer with public bounds: emits a value of
/// `[min, max)` in decimal, or fails on an empty range.
pub struct Integer {
    pub min: i64,
    pub max: i64,
}

impl Integer {
    /// Appends one random value of `[min, max)` in decimal.
    pub fn generate(&self, w: &mut Vec<u8>) -> (r: Result<(), Error>)
        ensures
            match r {
                Ok(()) => self.min < self.max && exists|v: int|
                    self.min <= v < self.max && final(w)@ == old(w)@ + dec_i64(v),
                Err(e) => self.min >= self.max && final(w)@ == old(w)@ && e@ is Macro,
            },
    {
        if self.min >= self.max {
            return Err(Error::Macro(String::from_str("INTEGER")));
        }
        let v: i64 = match self.max.checked_sub(self.min) {
            Some(width) => self.min + rand_range_u64(0, width as u64) as i64,
            None => {
                // The span exceeds the signed range; sample one half.
                if self.max == 0 || rand_range_u64(0, 2) == 0 {
                    let m: u64 = ((-(self.min + 1)) as u64) + 1;
                    self.min + rand_range_u64(0, m) as i64
                } else {
                    rand_range_u64(0, self.max as u64) as i64
                }
            },
        };
        push_dec_i64(w, v);
        Ok(())
    }
}

/// The shared shape of every generator: a well-formedness invariant and
/// one call per record index that appends bytes to the sink.
pub trait Generust {
    /// The generator's internal invariant.
    spec fn inv(&self) -> bool;

    /// Appends this generator's output for record `i` to `w`.
    fn generate(&mut self, i: u32, w: &mut Vec<u8>) -> (r: Result<(), Error>)
        requires
            old(self).inv(),
        ensures
            final(self).inv(),
    ;
}

impl Generust for Generator {
    open spec fn inv(&self) -> bool {
        gen_wf(self@)
    }

    fn generate(&mut self, i: u32, w: &mut Vec<u8>) -> (r: Result<(), Error>) {
        Generator::generate(self, i, w)
    }
}

impl Generust for Composite {
    open spec fn inv(&self) -> bool {
        comp_wf(self@)
    }

    fn generate(&mut self, i: u32, w: &mut Vec<u8>) -> (r: Result<(), Error>) {
        Composite::generate(self, i, w)
    }
}

} // verus!
