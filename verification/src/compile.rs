//! The template compiler: scans a template for macro invocations
//! delimited by a configurable trigger prefix and braces, parses each
//! body into a name and argument list, resolves the name against the
//! fixed registry, and assembles literal spans and resolved generators
//! in source order into one composite.

use vstd::prelude::*;
use vstd::slice::slice_subrange;
use vstd::string::{StrSliceExecFns, StringSliceAdditionalSpecFns};

use crate::corpus::{country_code_corpus, domain_corpus, first_corpus, last_corpus};
use crate::dates::{date_in_range, today_days};
use crate::error::{ErrView, Error};
use crate::gens::{
    bool_vars, comp_wf, date_rnd_spec, date_seq_spec, enum_vars_spec, file_path_spec,
    gender_vars, gen_wf, int_rnd_spec, int_seq_spec, ipv4_spec, phone_spec, row_num_spec,
    timestamp_spec, uuid_spec, views_of, BytesRnd, BytesSeq, Composite, DateRnd, DateSeq,
    EnumRnd, EnumSeq, FileRnd, FileSeq, GenView, Generator, IntRnd, IntSeq, IpV4, Phone, RowNum,
    Text, Timestamp, Uuid4,
};
use crate::util::{
    bytes_eq, copy_range, find_at, is_at, lemma_find_at, rfind,
    rfind_exec, scan_to, scan_to_exec, starts_with_at, trim_exec, trim_spec,
};

verus! {

/// The compiler's configuration, as contracts see it: the literal
/// trigger prefix, the argument separator, and the timezone names the
/// caller supplied.
pub struct CfgView {
    pub prefix: Seq<u8>,
    pub sep: Seq<u8>,
    pub tzs: Seq<Seq<u8>>,
}

/// The trigger pattern with its escapes resolved: a backslash makes the
/// next byte literal. A trailing lone backslash is malformed.
pub open spec fn unescape_spec(p: Seq<u8>) -> Option<Seq<u8>>
    decreases p.len(),
{
    if p.len() == 0 {
        Some(Seq::empty())
    } else if p[0] == 92 {
        if p.len() == 1 {
            None
        } else {
            match unescape_spec(p.skip(2)) {
                Some(r) => Some(seq![p[1]] + r),
                None => None,
            }
        }
    } else {
        match unescape_spec(p.skip(1)) {
            Some(r) => Some(seq![p[0]] + r),
            None => None,
        }
    }
}

/// True when a macro invocation begins at `s` of `t`: the trigger
/// prefix, an opening brace, one or more non-brace bytes, and a
/// closing brace.
pub open spec fn match_at(t: Seq<u8>, p: Seq<u8>, s: int) -> bool {
    let bs = s + p.len();
    let j = bs + 1;
    let e = scan_to(t, j, 125);
    &&& is_at(t, s, p)
    &&& bs < t.len()
    &&& t[bs] == 123
    &&& e < t.len()
    &&& e > j
}

/// The first position at or after `pos` where a macro invocation
/// begins; `-1` if none does.
pub open spec fn first_match(t: Seq<u8>, p: Seq<u8>, pos: int) -> int
    decreases t.len() - pos,
{
    if pos < 0 || pos >= t.len() {
        -1
    } else if match_at(t, p, pos) {
        pos
    } else {
        first_match(t, p, pos + 1)
    }
}

pub proof fn lemma_first_match(t: Seq<u8>, p: Seq<u8>, pos: int)
    requires
        0 <= pos,
    ensures
        first_match(t, p, pos) == -1 || pos <= first_match(t, p, pos) < t.len(),
        first_match(t, p, pos) >= 0 ==> match_at(t, p, first_match(t, p, pos)),
        forall|k: int| pos <= k < first_match(t, p, pos) ==> !match_at(t, p, k),
        first_match(t, p, pos) == -1 ==> forall|k: int| pos <= k ==> !match_at(t, p, k),
    decreases t.len() - pos,
{
    if pos >= t.len() {
        assert forall|k: int| pos <= k implies !match_at(t, p, k) by {
            assert(k + p.len() >= t.len());
        }
    } else if !match_at(t, p, pos) {
        lemma_first_match(t, p, pos + 1);
    }
}

/// The macro body split at its parenthesis structure: the name before
/// the last opening parenthesis that still has a closing one after it,
/// and the raw arguments up to the last closing parenthesis. A body
/// without that structure is all name.
pub open spec fn macro_parts(body: Seq<u8>) -> Option<(Seq<u8>, Seq<u8>)> {
    let m = rfind(body, body.len() as int, 41);
    if m < 0 {
        None
    } else {
        let k = rfind(body, m, 40);
        if k < 1 {
            None
        } else {
            Some((body.subrange(0, k), body.subrange(k + 1, m)))
        }
    }
}

/// The argument list from position `pos` on: the pieces between
/// occurrences of the separator, each trimmed of surrounding ASCII
/// whitespace.
pub open spec fn split_trim_from(d: Seq<u8>, sep: Seq<u8>, pos: int) -> Seq<Seq<u8>>
    decreases d.len() - pos,
{
    if sep.len() == 0 || pos < 0 || pos > d.len() {
        seq![]
    } else {
        let p = find_at(d, pos, sep);
        if p < 0 {
            seq![trim_spec(d.subrange(pos, d.len() as int))]
        } else {
            proof {
                lemma_find_at(d, pos, sep);
            }
            seq![trim_spec(d.subrange(pos, p))] + split_trim_from(d, sep, p + sep.len() as int)
        }
    }
}

/// The whole argument list of a raw argument string.
pub open spec fn split_args(raw: Seq<u8>, sep: Seq<u8>) -> Seq<Seq<u8>> {
    if sep.len() == 0 {
        seq![trim_spec(raw)]
    } else {
        split_trim_from(raw, sep, 0)
    }
}

/// What the registry's factory for `name` yields on `args`, or `None`
/// when the registry does not know the name.
pub open spec fn apply_factory(
    name: Seq<u8>,
    args: Seq<Seq<u8>>,
    today: int,
    tzs: Seq<Seq<u8>>,
) -> Option<Result<GenView, ErrView>> {
    if name == "ROW_NUM".spec_bytes() {
        Some(row_num_spec(args))
    } else if name == "INT_SEQ".spec_bytes() {
        Some(int_seq_spec(args))
    } else if name == "INT_RND".spec_bytes() {
        Some(int_rnd_spec(args))
    } else if name == "DATE_SEQ".spec_bytes() {
        Some(date_seq_spec(args, today))
    } else if name == "DATE_RND".spec_bytes() {
        Some(date_rnd_spec(args, today))
    } else if name == "UUID4".spec_bytes() {
        Some(uuid_spec(args))
    } else if name == "IPV4".spec_bytes() {
        Some(ipv4_spec(args))
    } else if name == "TIMESTAMP".spec_bytes() {
        Some(timestamp_spec(args))
    } else if name == "ENUM_SEQ".spec_bytes() {
        Some(
            match enum_vars_spec(args, "ENUM_SEQ"@) {
                Ok(vars) => Ok(GenView::EnumSeq { vars }),
                Err(e) => Err(e),
            },
        )
    } else if name == "ENUM_RND".spec_bytes() {
        Some(
            match enum_vars_spec(args, "ENUM_RND"@) {
                Ok(vars) => Ok(GenView::EnumRnd { vars }),
                Err(e) => Err(e),
            },
        )
    } else if name == "TIME_ZONE".spec_bytes() {
        Some(
            if tzs.len() == 0 {
                Err(ErrView::Io("no timezone names are available"@))
            } else {
                Ok(GenView::EnumRnd { vars: tzs })
            },
        )
    } else if name == "BOOLEAN".spec_bytes() {
        Some(Ok(GenView::EnumRnd { vars: bool_vars() }))
    } else if name == "GENDER".spec_bytes() {
        Some(Ok(GenView::EnumRnd { vars: gender_vars() }))
    } else if name == "PHONE".spec_bytes() {
        Some(phone_spec(args))
    } else if name == "FIRST_SEQ".spec_bytes() {
        Some(corpus_seq_spec(first_corpus()))
    } else if name == "FIRST_RND".spec_bytes() {
        Some(corpus_rnd_spec(first_corpus()))
    } else if name == "LAST_SEQ".spec_bytes() {
        Some(corpus_seq_spec(last_corpus()))
    } else if name == "LAST_RND".spec_bytes() {
        Some(corpus_rnd_spec(last_corpus()))
    } else if name == "DOMAIN_SEQ".spec_bytes() {
        Some(corpus_seq_spec(domain_corpus()))
    } else if name == "DOMAIN_RND".spec_bytes() {
        Some(corpus_rnd_spec(domain_corpus()))
    } else if name == "COUNTRY_CODE_SEQ".spec_bytes() {
        Some(corpus_seq_spec(country_code_corpus()))
    } else if name == "COUNTRY_CODE_RND".spec_bytes() {
        Some(corpus_rnd_spec(country_code_corpus()))
    } else if name == "FILE_RND".spec_bytes() {
        Some(
            match file_path_spec(args, "FILE_RND"@) {
                Ok(p) => Ok(GenView::FileRnd { path: p, data: None }),
                Err(e) => Err(e),
            },
        )
    } else if name == "FILE_SEQ".spec_bytes() {
        Some(
            match file_path_spec(args, "FILE_SEQ"@) {
                Ok(p) => Ok(GenView::FileSeq { path: p, data: None, offset: 0 }),
                Err(e) => Err(e),
            },
        )
    } else {
        None
    }
}

/// A sequential sampler over a built-in corpus, or the empty-corpus
/// error.
pub open spec fn corpus_seq_spec(data: Seq<u8>) -> Result<GenView, ErrView> {
    if data.len() > 0 {
        Ok(GenView::BytesSeq { data, offset: 0 })
    } else {
        Err(ErrView::EmptyCorpus)
    }
}

/// A random sampler over a built-in corpus, or the empty-corpus error.
pub open spec fn corpus_rnd_spec(data: Seq<u8>) -> Result<GenView, ErrView> {
    if data.len() > 0 {
        Ok(GenView::BytesRnd { data })
    } else {
        Err(ErrView::EmptyCorpus)
    }
}

/// What one macro body compiles to: its factory's result for a known
/// name, or, for an unknown one, the matched span verbatim, delimiters
/// included.
pub open spec fn macro_spec(cfg: CfgView, body: Seq<u8>, span: Seq<u8>, today: int) -> Result<
    GenView,
    ErrView,
> {
    let (name, args) = match macro_parts(body) {
        Some((n, raw)) => (n, split_args(raw, cfg.sep)),
        None => (body, Seq::<Seq<u8>>::empty()),
    };
    match apply_factory(name, args, today, cfg.tzs) {
        Some(res) => res,
        None => Ok(GenView::Text { text: span }),
    }
}

/// What the template compiles to from position `pos` on: alternating
/// literal spans and resolved macros, or the first construction error.
pub open spec fn compile_from(cfg: CfgView, t: Seq<u8>, today: int, pos: int) -> Result<
    Seq<GenView>,
    ErrView,
>
    decreases t.len() - pos,
{
    if pos < 0 || pos > t.len() {
        Ok(seq![])
    } else {
        let s = first_match(t, cfg.prefix, pos);
        if s < 0 {
            if pos < t.len() {
                Ok(seq![GenView::Text { text: t.subrange(pos, t.len() as int) }])
            } else {
                Ok(seq![])
            }
        } else {
            proof {
                lemma_first_match(t, cfg.prefix, pos);
            }
            let j = s + cfg.prefix.len() + 1;
            let e = scan_to(t, j, 125);
            let body = t.subrange(j, e);
            let span = t.subrange(s, e + 1);
            let lit: Seq<GenView> = if s > pos {
                seq![GenView::Text { text: t.subrange(pos, s) }]
            } else {
                seq![]
            };
            match macro_spec(cfg, body, span, today) {
                Ok(g) => match compile_from(cfg, t, today, e + 1) {
                    Ok(rest) => Ok(lit + seq![g] + rest),
                    Err(er) => Err(er),
                },
                Err(er) => Err(er),
            }
        }
    }
}

/// What a whole template compiles to under a configuration, given the
/// current day count.
pub open spec fn compile_spec(cfg: CfgView, t: Seq<u8>, today: int) -> Result<
    Seq<GenView>,
    ErrView,
> {
    compile_from(cfg, t, today, 0)
}

/// The compiler: a trigger prefix, an argument separator, and the
/// timezone names supplied by the caller.
pub struct Parser {
    prefix: Vec<u8>,
    sep: Vec<u8>,
    tzs: Vec<Vec<u8>>,
}

impl View for Parser {
    type V = CfgView;

    closed spec fn view(&self) -> CfgView {
        CfgView { prefix: self.prefix@, sep: self.sep@, tzs: self.tzs.deep_view() }
    }
}

impl Parser {
    /// Builds a compiler from a trigger pattern and an argument
    /// separator. The pattern is read as a literal byte string in
    /// which a backslash makes the next byte literal — not as a
    /// regular-expression fragment — so the usual triggers, a
    /// backslash-escaped dollar or a plain `@`, mean what they say,
    /// and only a trailing lone backslash is malformed. The separator
    /// is stored verbatim. No timezone names are available until
    /// `set_time_zones` supplies them.
    pub fn new(macro_start: &str, separator_args: &str) -> (r: Result<Parser, Error>)
        ensures
            r is Ok <==> unescape_spec(macro_start.spec_bytes()) is Some,
            r is Ok ==> r->Ok_0@ == (CfgView {
                prefix: unescape_spec(macro_start.spec_bytes())->Some_0,
                sep: separator_args.spec_bytes(),
                tzs: Seq::<Seq<u8>>::empty(),
            }),
            r is Err ==> r->Err_0@ is Pattern,
    {
        let raw = macro_start.as_bytes();
        proof {
            assert(raw@.skip(0) =~= raw@);
        }
        let prefix = match unescape(raw, 0) {
            Some(p) => p,
            None => {
                return Err(Error::Pattern);
            },
        };
        let sep = separator_args.as_bytes_vec();
        let tzs: Vec<Vec<u8>> = Vec::new();
        let parser = Parser { prefix, sep, tzs };
        proof {
            assert(parser.tzs.deep_view() =~= Seq::<Seq<u8>>::empty());
        }
        Ok(parser)
    }

    /// Supplies the timezone names that the timezone macro enumerates.
    pub fn set_time_zones(&mut self, zones: Vec<Vec<u8>>)
        ensures
            final(self)@ == (CfgView {
                prefix: old(self)@.prefix,
                sep: old(self)@.sep,
                tzs: zones.deep_view(),
            }),
    {
        self.tzs = zones;
    }

    /// Compiles a template into a composite generator, or reports the
    /// first construction error. The compiled form follows
    /// `compile_spec` for the current day count.
    pub fn parse(&self, template: &str) -> (r: Result<Composite, Error>)
        ensures
            exists|today: int|
                #[trigger] date_in_range(today) && match r {
                    Ok(c) => compile_spec(self@, template.spec_bytes(), today) == Ok::<
                        Seq<GenView>,
                        ErrView,
                    >(c@) && comp_wf(c@),
                    Err(e) => compile_spec(self@, template.spec_bytes(), today) == Err::<
                        Seq<GenView>,
                        ErrView,
                    >(e@),
                },
    {
        self.parse_bytes(template.as_bytes())
    }

    /// Compiles a template given as bytes; `parse` is this, applied to
    /// the template's UTF-8 bytes.
    pub fn parse_bytes(&self, template: &[u8]) -> (r: Result<Composite, Error>)
        ensures
            exists|today: int|
                #[trigger] date_in_range(today) && match r {
                    Ok(c) => compile_spec(self@, template@, today) == Ok::<
                        Seq<GenView>,
                        ErrView,
                    >(c@) && comp_wf(c@),
                    Err(e) => compile_spec(self@, template@, today) == Err::<
                        Seq<GenView>,
                        ErrView,
                    >(e@),
                },
    {
        let today = today_days();
        let ghost cfg = self@;
        let ghost t = template@;
        let n = template.len();
        let mut gens: Vec<Generator> = Vec::new();
        let mut pos: usize = 0;
        proof {
            assert(views_of(gens@) =~= Seq::<GenView>::empty());
        }
        loop
            invariant
                pos <= n,
                n == t.len(),
                t == template@,
                cfg == self@,
                date_in_range(today as int),
                comp_wf(views_of(gens@)),
                compile_from(cfg, t, today as int, 0) == (match compile_from(
                    cfg,
                    t,
                    today as int,
                    pos as int,
                ) {
                    Ok(rest) => Ok::<Seq<GenView>, ErrView>(views_of(gens@) + rest),
                    Err(er) => Err::<Seq<GenView>, ErrView>(er),
                }),
            decreases n - pos,
        {
            let found = self.find_match(template, pos);
            match found {
                None => {
                    let ghost old_gens = gens@;
                    if pos < n {
                        let text = copy_range(template, pos, n);
                        gens.push(Text::from_bytes(text));
                        proof {
                            lemma_views_push(old_gens, gens@);
                            assert(views_of(gens@) =~= views_of(old_gens) + seq![
                                GenView::Text { text: t.subrange(pos as int, t.len() as int) },
                            ]);
                        }
                    }
                    proof {
                        if pos < n {
                            assert(views_of(old_gens) + seq![
                                GenView::Text { text: t.subrange(pos as int, t.len() as int) },
                            ] =~= views_of(gens@));
                        } else {
                            assert(views_of(gens@) + Seq::<GenView>::empty() =~= views_of(
                                gens@,
                            ));
                        }
                        assert(compile_from(cfg, t, today as int, 0) == Ok::<
                            Seq<GenView>,
                            ErrView,
                        >(views_of(gens@)));
                    }
                    return Ok(Composite::new(gens));
                },
                Some((s, e)) => {
                    let ghost gens0 = gens@;
                    if s > pos {
                        let text = copy_range(template, pos, s);
                        gens.push(Text::from_bytes(text));
                        proof {
                            lemma_views_push(gens0, gens@);
                        }
                    }
                    let ghost gens1 = gens@;
                    let j = s + self.prefix.len() + 1;
                    let body = slice_subrange(template, j, e);
                    let span = copy_range(template, s, e + 1);
                    let g = match self.make_macro(body, span, today) {
                        Ok(g) => g,
                        Err(er) => {
                            return Err(er);
                        },
                    };
                    gens.push(g);
                    proof {
                        lemma_views_push(gens1, gens@);
                        let lit: Seq<GenView> = if s > pos {
                            seq![GenView::Text { text: t.subrange(pos as int, s as int) }]
                        } else {
                            seq![]
                        };
                        assert(views_of(gens@) =~= views_of(gens0) + lit + seq![g@]);
                        assert forall|rest: Seq<GenView>| true implies views_of(gens0) + (lit
                            + seq![g@] + rest) =~= views_of(gens@) + rest by {}
                    }
                    pos = e + 1;
                },
            }
        }
    }

    /// Finds the first macro invocation at or after `from`: its start
    /// and the position of its closing brace.
    fn find_match(&self, t: &[u8], from: usize) -> (r: Option<(usize, usize)>)
        requires
            from <= t@.len(),
        ensures
            match r {
                Some((s, e)) => {
                    &&& s as int == first_match(t@, self@.prefix, from as int)
                    &&& from <= s
                    &&& match_at(t@, self@.prefix, s as int)
                    &&& e as int == scan_to(t@, s + self@.prefix.len() + 1, 125)
                    &&& s + self@.prefix.len() + 1 < e
                    &&& e < t@.len()
                },
                None => first_match(t@, self@.prefix, from as int) == -1,
            },
    {
        let n = t.len();
        let mut s: usize = from;
        while s < n
            invariant
                from <= s <= n,
                n == t@.len(),
                first_match(t@, self@.prefix, from as int) == first_match(
                    t@,
                    self@.prefix,
                    s as int,
                ),
            decreases n - s,
        {
            if starts_with_at(t, s, self.prefix.as_slice()) {
                let bs = s + self.prefix.len();
                if bs < n && t[bs] == 123 {
                    let j = bs + 1;
                    let e = scan_to_exec(t, j, 125);
                    if e < n && e > j {
                        proof {
                            assert(match_at(t@, self@.prefix, s as int));
                        }
                        return Some((s, e));
                    }
                    proof {
                        assert(!match_at(t@, self@.prefix, s as int));
                    }
                } else {
                    proof {
                        assert(!match_at(t@, self@.prefix, s as int));
                    }
                }
            } else {
                proof {
                    assert(!match_at(t@, self@.prefix, s as int));
                }
            }
            s = s + 1;
        }
        None
    }

    /// Splits a raw argument string on the separator and trims each
    /// piece.
    fn split_trim(&self, raw: &[u8]) -> (r: Vec<Vec<u8>>)
        ensures
            r.deep_view() == split_args(raw@, self@.sep),
    {
        let mut out: Vec<Vec<u8>> = Vec::new();
        if self.sep.len() == 0 {
            out.push(trim_exec(raw));
            proof {
                crate::util::lemma_bytes_deep_view(out@[0]);
                assert(out.deep_view()[0] == out@[0].deep_view());
                assert(out.deep_view() =~= split_args(raw@, self@.sep));
            }
            return out;
        }
        let n = raw.len();
        let mut pos: usize = 0;
        let ghost mut acc: Seq<Seq<u8>> = Seq::empty();
        proof {
            assert(acc + split_trim_from(raw@, self@.sep, 0) =~= split_trim_from(
                raw@,
                self@.sep,
                0,
            ));
        }
        loop
            invariant
                pos <= n,
                n == raw@.len(),
                self@.sep.len() > 0,
                self@.sep == self.sep@,
                split_args(raw@, self@.sep) == acc + split_trim_from(raw@, self@.sep, pos as int),
                out@.len() == acc.len(),
                forall|j: int| 0 <= j < acc.len() ==> out@[j]@ == acc[j],
            decreases n - pos,
        {
            let ghost acc0 = acc;
            match crate::util::find_at_exec(raw, pos, self.sep.as_slice()) {
                Some(p) => {
                    let piece = slice_subrange(raw, pos, p);
                    out.push(trim_exec(piece));
                    proof {
                        acc = acc0.push(trim_spec(raw@.subrange(pos as int, p as int)));
                        assert(acc0 + (seq![trim_spec(raw@.subrange(pos as int, p as int))]
                            + split_trim_from(raw@, self@.sep, p + self@.sep.len())) =~= acc
                            + split_trim_from(raw@, self@.sep, p + self@.sep.len()));
                    }
                    pos = p + self.sep.len();
                },
                None => {
                    let piece = slice_subrange(raw, pos, n);
                    out.push(trim_exec(piece));
                    proof {
                        acc = acc0.push(trim_spec(raw@.subrange(pos as int, n as int)));
                        assert(acc0 + seq![trim_spec(raw@.subrange(pos as int, n as int))] =~= acc);
                        assert(split_args(raw@, self@.sep) == acc);
                        assert forall|j: int|
                            0 <= j < out.deep_view().len() implies out.deep_view()[j] == acc[j] by {
                            assert(out.deep_view()[j] == out@[j].deep_view());
                            crate::util::lemma_bytes_deep_view(out@[j]);
                        }
                        assert(out.deep_view() =~= acc);
                    }
                    return out;
                },
            }
        }
    }

    /// Resolves one macro body: parses its name and arguments, applies
    /// the registry's factory, and falls back to the matched span as
    /// literal text for an unknown name.
    fn make_macro(&self, body: &[u8], span: Vec<u8>, today: i64) -> (r: Result<Generator, Error>)
        requires
            date_in_range(today as int),
        ensures
            match r {
                Ok(g) => macro_spec(self@, body@, span@, today as int) == Ok::<
                    GenView,
                    ErrView,
                >(g@) && gen_wf(g@),
                Err(e) => macro_spec(self@, body@, span@, today as int) == Err::<
                    GenView,
                    ErrView,
                >(e@),
            },
    {
        let bn = body.len();
        let mut name: Vec<u8>;
        let mut args: Vec<Vec<u8>> = Vec::new();
        match rfind_exec(body, bn, 41) {
            Some(m) => {
                match rfind_exec(body, m, 40) {
                    Some(k) => {
                        if k >= 1 {
                            name = copy_range(body, 0, k);
                            let raw = slice_subrange(body, k + 1, m);
                            args = self.split_trim(raw);
                        } else {
                            name = copy_range(body, 0, bn);
                            proof {
                                assert(args.deep_view() =~= Seq::<Seq<u8>>::empty());
                            }
                        }
                    },
                    None => {
                        name = copy_range(body, 0, bn);
                        proof {
                            assert(args.deep_view() =~= Seq::<Seq<u8>>::empty());
                        }
                    },
                }
            },
            None => {
                name = copy_range(body, 0, bn);
                proof {
                    assert(args.deep_view() =~= Seq::<Seq<u8>>::empty());
                }
            },
        }
        proof {
            assert(body@.subrange(0, body@.len() as int) =~= body@);
        }
        let nm = name.as_slice();
        if bytes_eq(nm, "ROW_NUM".as_bytes()) {
            RowNum::create(&args)
        } else if bytes_eq(nm, "INT_SEQ".as_bytes()) {
            IntSeq::create(&args)
        } else if bytes_eq(nm, "INT_RND".as_bytes()) {
            IntRnd::create(&args)
        } else if bytes_eq(nm, "DATE_SEQ".as_bytes()) {
            DateSeq::create(&args, today)
        } else if bytes_eq(nm, "DATE_RND".as_bytes()) {
            DateRnd::create(&args, today)
        } else if bytes_eq(nm, "UUID4".as_bytes()) {
            Uuid4::create(&args)
        } else if bytes_eq(nm, "IPV4".as_bytes()) {
            IpV4::create(&args)
        } else if bytes_eq(nm, "TIMESTAMP".as_bytes()) {
            Timestamp::create(&args)
        } else if bytes_eq(nm, "ENUM_SEQ".as_bytes()) {
            EnumSeq::create(&args)
        } else if bytes_eq(nm, "ENUM_RND".as_bytes()) {
            EnumRnd::create(&args)
        } else if bytes_eq(nm, "TIME_ZONE".as_bytes()) {
            EnumRnd::create_time_zone(&self.tzs)
        } else if bytes_eq(nm, "BOOLEAN".as_bytes()) {
            EnumRnd::create_boolean(&args)
        } else if bytes_eq(nm, "GENDER".as_bytes()) {
            EnumRnd::create_gender(&args)
        } else if bytes_eq(nm, "PHONE".as_bytes()) {
            Phone::create(&args)
        } else if bytes_eq(nm, "FIRST_SEQ".as_bytes()) {
            BytesSeq::create_first(&args)
        } else if bytes_eq(nm, "FIRST_RND".as_bytes()) {
            BytesRnd::create_first(&args)
        } else if bytes_eq(nm, "LAST_SEQ".as_bytes()) {
            BytesSeq::create_last(&args)
        } else if bytes_eq(nm, "LAST_RND".as_bytes()) {
            BytesRnd::create_last(&args)
        } else if bytes_eq(nm, "DOMAIN_SEQ".as_bytes()) {
            BytesSeq::create_domain(&args)
        } else if bytes_eq(nm, "DOMAIN_RND".as_bytes()) {
            BytesRnd::create_domain(&args)
        } else if bytes_eq(nm, "COUNTRY_CODE_SEQ".as_bytes()) {
            BytesSeq::create_country_code(&args)
        } else if bytes_eq(nm, "COUNTRY_CODE_RND".as_bytes()) {
            BytesRnd::create_country_code(&args)
        } else if bytes_eq(nm, "FILE_RND".as_bytes()) {
            FileRnd::create(&args)
        } else if bytes_eq(nm, "FILE_SEQ".as_bytes()) {
            FileSeq::create(&args)
        } else {
            Ok(Text::from_bytes(span))
        }
    }
}

/// Pushing one generator extends the list of views by its view.
proof fn lemma_views_push(before: Seq<Generator>, after: Seq<Generator>)
    requires
        after.len() == before.len() + 1,
        forall|j: int| 0 <= j < before.len() ==> after[j] == before[j],
    ensures
        views_of(after) =~= views_of(before).push(after.last()@),
{
    assert forall|j: int| 0 <= j < after.len() implies views_of(after)[j] == views_of(
        before,
    ).push(after.last()@)[j] by {
        if j < before.len() {
            assert(views_of(after)[j] == after[j]@);
            assert(views_of(before)[j] == before[j]@);
        } else {
            assert(views_of(after)[j] == after[j]@);
        }
    }
}

/// Unescapes a trigger pattern from position `from` on.
fn unescape(p: &[u8], from: usize) -> (r: Option<Vec<u8>>)
    requires
        from <= p@.len(),
    ensures
        match r {
            Some(v) => unescape_spec(p@.skip(from as int)) == Some(v@),
            None => unescape_spec(p@.skip(from as int)) is None,
        },
    decreases p@.len() - from,
{
    if from == p.len() {
        let r: Vec<u8> = Vec::new();
        proof {
            assert(p@.skip(from as int) =~= Seq::<u8>::empty());
            assert(r@ =~= Seq::<u8>::empty());
        }
        Some(r)
    } else if p[from] == 92 {
        if from + 1 == p.len() {
            proof {
                assert(p@.skip(from as int)[0] == 92);
                assert(p@.skip(from as int).len() == 1);
            }
            None
        } else {
            match unescape(p, from + 2) {
                Some(rest) => {
                    let mut out: Vec<u8> = Vec::new();
                    out.push(p[from + 1]);
                    crate::util::append_bytes(&mut out, rest.as_slice());
                    proof {
                        assert(p@.skip(from as int)[0] == 92);
                        assert(p@.skip(from as int).skip(2) =~= p@.skip(from as int + 2));
                        assert(out@ =~= seq![p@[from as int + 1]] + rest@);
                    }
                    Some(out)
                },
                None => {
                    proof {
                        assert(p@.skip(from as int)[0] == 92);
                        assert(p@.skip(from as int).skip(2) =~= p@.skip(from as int + 2));
                    }
                    None
                },
            }
        }
    } else {
        match unescape(p, from + 1) {
            Some(rest) => {
                let mut out: Vec<u8> = Vec::new();
                out.push(p[from]);
                crate::util::append_bytes(&mut out, rest.as_slice());
                proof {
                    assert(p@.skip(from as int)[0] == p@[from as int]);
                    assert(p@.skip(from as int).skip(1) =~= p@.skip(from as int + 1));
                    assert(out@ =~= seq![p@[from as int]] + rest@);
                }
                Some(out)
            },
            None => {
                proof {
                    assert(p@.skip(from as int)[0] == p@[from as int]);
                    assert(p@.skip(from as int).skip(1) =~= p@.skip(from as int + 1));
                }
                None
            },
        }
    }
}

/// The default compiler configuration: a dollar trigger, a comma
/// separator, and no timezone names.
pub open spec fn default_cfg() -> CfgView {
    CfgView { prefix: seq![36u8], sep: seq![44u8], tzs: Seq::<Seq<u8>>::empty() }
}

/// Compiles a template under the default configuration.
pub fn parse(text: &str) -> (r: Result<Composite, Error>)
    ensures
        exists|today: int|
            #[trigger] date_in_range(today) && match r {
                Ok(c) => compile_spec(default_cfg(), text.spec_bytes(), today) == Ok::<
                    Seq<GenView>,
                    ErrView,
                >(c@) && comp_wf(c@),
                Err(e) => compile_spec(default_cfg(), text.spec_bytes(), today) == Err::<
                    Seq<GenView>,
                    ErrView,
                >(e@),
            },
{
    proof {
        broadcast use vstd::string::is_ascii_spec_bytes;

        reveal_strlit("\\$");
        reveal_strlit(",");
        assert("\\$"@.len() == 2);
        assert("\\$"@[0] == '\\' && "\\$"@[1] == '$');
        assert("\\$".is_ascii());
        assert("\\$".spec_bytes() =~= seq![92u8, 36u8]);
        assert(","@.len() == 1 && ","@[0] == ',');
        assert(",".is_ascii());
        assert(",".spec_bytes() =~= seq![44u8]);
        assert(seq![92u8, 36u8].skip(2) =~= Seq::<u8>::empty());
        assert(unescape_spec(Seq::<u8>::empty()) == Some(Seq::<u8>::empty()));
        assert(unescape_spec(seq![92u8, 36u8]) == Some(seq![36u8] + Seq::<u8>::empty()));
        assert(seq![36u8] + Seq::<u8>::empty() =~= seq![36u8]);
    }
    let parser = match Parser::new("\\$", ",") {
        Ok(p) => p,
        Err(_) => {
            // The default trigger pattern always unescapes.
            proof {
                assert(false);
            }
            return Err(Error::Pattern);
        },
    };
    proof {
        assert(parser@ == default_cfg());
    }
    parser.parse(text)
}

/// The runtime options of the surrounding tool: how many records to
/// generate, the trigger pattern, the argument separator and the
/// verbosity level.
pub struct Options {
    pub count: i32,
    pub macro_start: String,
    pub separator_args: String,
    pub verbose: u8,
}

} // verus!
