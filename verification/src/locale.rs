//! Locale probes: parsing the host locale configuration file, filtering the
//! generation manifest for available locales, normalizing the generated
//! locale list, and assembling the aggregate status snapshot.
//!
//! Parsing is best-effort: comments, blank lines and malformed lines are
//! skipped, never fatal.

use vstd::prelude::*;

use crate::model::{empty_locale_model, LocaleInfo, LocaleModel, LocaleStatus};
use crate::text::{
    contains_str, ends_with_str, eq_p, find_char, find_ws, first_where, has_substring,
    is_wspace, join_lines, join_nl, lemma_first_where_is, lemma_last_until_is,
    lemma_lines_of_join_nl, lines_of, neg_p, nl_free, not_ws_p, quote_p, skip_ws, split_lines,
    str_eq, strs_view, trim, trim_by, trim_quote_chars, trim_quotes, trim_start, trim_start_ws,
    trim_ws, ws_p,
};

verus! {

// --- Locale configuration file ---

/// Assign the value to the named category; an unrecognized key changes
/// nothing.
pub open spec fn locale_key_update(m: LocaleModel, k: Seq<char>, v: Seq<char>) -> LocaleModel {
    if k == "LANG"@ {
        LocaleModel { lang: v, ..m }
    } else if k == "LC_COLLATE"@ {
        LocaleModel { lc_collate: v, ..m }
    } else if k == "LC_CTYPE"@ {
        LocaleModel { lc_ctype: v, ..m }
    } else if k == "LC_MESSAGES"@ {
        LocaleModel { lc_messages: v, ..m }
    } else if k == "LC_MONETARY"@ {
        LocaleModel { lc_monetary: v, ..m }
    } else if k == "LC_NUMERIC"@ {
        LocaleModel { lc_numeric: v, ..m }
    } else if k == "LC_TIME"@ {
        LocaleModel { lc_time: v, ..m }
    } else {
        m
    }
}

/// One line of the configuration file: blank lines, comments and lines
/// without `=` are ignored; otherwise the key is the text before the first
/// `=` and the value is the rest, quote-stripped and trimmed.
pub open spec fn conf_line_apply(m: LocaleModel, line: Seq<char>) -> LocaleModel {
    let t = trim_ws(line);
    if t.len() == 0 || t[0] == '#' {
        m
    } else {
        let e = first_where(t, 0, eq_p('='));
        if e == t.len() {
            m
        } else {
            locale_key_update(
                m,
                t.subrange(0, e),
                trim_ws(trim_quotes(t.subrange(e + 1, t.len() as int))),
            )
        }
    }
}

pub open spec fn conf_fold(m: LocaleModel, lines: Seq<Seq<char>>) -> LocaleModel
    decreases lines.len(),
{
    if lines.len() == 0 {
        m
    } else {
        conf_fold(conf_line_apply(m, lines[0]), lines.drop_first())
    }
}

/// What parsing the whole configuration file yields: every category defaults
/// to empty and later lines win.
pub open spec fn parse_locale_conf_spec(raw: Seq<char>) -> LocaleModel {
    conf_fold(empty_locale_model(), lines_of(raw))
}

proof fn lemma_conf_fold_snoc(m: LocaleModel, lines: Seq<Seq<char>>, l: Seq<char>)
    ensures
        conf_fold(m, lines.push(l)) == conf_line_apply(conf_fold(m, lines), l),
    decreases lines.len(),
{
    if lines.len() == 0 {
        assert(lines.push(l)[0] == l);
        assert(lines.push(l).drop_first() =~= Seq::<Seq<char>>::empty());
        assert(conf_fold(m, lines.push(l)) == conf_fold(conf_line_apply(m, l), Seq::empty()));
    } else {
        lemma_conf_fold_snoc(conf_line_apply(m, lines[0]), lines.drop_first(), l);
        assert(lines.push(l)[0] == lines[0]);
        assert(lines.push(l).drop_first() =~= lines.drop_first().push(l));
    }
}

/// Parse the locale configuration file content, as `parse_locale_conf_spec`
/// describes.
pub fn parse_locale_conf(content: &str) -> (r: LocaleInfo)
    ensures
        r@ == parse_locale_conf_spec(content@),
{
    let lines = split_lines(content);
    let ghost lseq = strs_view(lines@);
    let mut info = LocaleInfo::default();
    let mut i: usize = 0;
    proof {
        assert(lseq.take(0) =~= Seq::<Seq<char>>::empty());
    }
    while i < lines.len()
        invariant
            lseq == strs_view(lines@),
            lseq == lines_of(content@),
            i <= lines@.len(),
            info@ == conf_fold(empty_locale_model(), lseq.take(i as int)),
        decreases lines@.len() - i,
    {
        let ghost m_before = info@;
        let line = lines[i].as_str();
        proof {
            assert(line@ == lseq[i as int]);
        }
        let t = trim(line);
        let tlen = t.unicode_len();
        if tlen == 0 {
            proof {
                assert(conf_line_apply(m_before, line@) == m_before);
            }
        } else if t.get_char(0) == '#' {
            proof {
                assert(conf_line_apply(m_before, line@) == m_before);
            }
        } else {
            let e = find_char(t, 0, '=');
            if e == tlen {
                proof {
                    assert(conf_line_apply(m_before, line@) == m_before);
                }
            } else {
                let k = t.substring_char(0, e);
                let vraw = t.substring_char(e + 1, tlen);
                let v = trim(trim_quote_chars(vraw)).to_owned();
                proof {
                    assert(vraw@ == trim_ws(line@).subrange(
                        e + 1,
                        trim_ws(line@).len() as int,
                    ));
                    assert(v@ == trim_ws(trim_quotes(vraw@)));
                }
                if str_eq(k, "LANG") {
                    info.lang = v;
                } else if str_eq(k, "LC_COLLATE") {
                    info.lc_collate = v;
                } else if str_eq(k, "LC_CTYPE") {
                    info.lc_ctype = v;
                } else if str_eq(k, "LC_MESSAGES") {
                    info.lc_messages = v;
                } else if str_eq(k, "LC_MONETARY") {
                    info.lc_monetary = v;
                } else if str_eq(k, "LC_NUMERIC") {
                    info.lc_numeric = v;
                } else if str_eq(k, "LC_TIME") {
                    info.lc_time = v;
                }
                proof {
                    assert(info@ == conf_line_apply(m_before, line@));
                }
            }
        }
        proof {
            assert(lseq.take(i + 1) =~= lseq.take(i as int).push(lseq[i as int]));
            lemma_conf_fold_snoc(empty_locale_model(), lseq.take(i as int), lseq[i as int]);
        }
        i += 1;
    }
    proof {
        assert(lseq.take(lines@.len() as int) =~= lseq);
    }
    info
}

// --- Serialization in KEY="value" form ---

pub open spec fn conf_line_of(key: Seq<char>, v: Seq<char>) -> Seq<char> {
    key + "=\""@ + v + "\""@
}

pub open spec fn conf_lines_of_model(m: LocaleModel) -> Seq<Seq<char>> {
    seq![
        conf_line_of("LANG"@, m.lang),
        conf_line_of("LC_COLLATE"@, m.lc_collate),
        conf_line_of("LC_CTYPE"@, m.lc_ctype),
        conf_line_of("LC_MESSAGES"@, m.lc_messages),
        conf_line_of("LC_MONETARY"@, m.lc_monetary),
        conf_line_of("LC_NUMERIC"@, m.lc_numeric),
        conf_line_of("LC_TIME"@, m.lc_time),
    ]
}

/// The `KEY="value"` serialization of a configuration: one line for each of
/// the seven categories, in the fixed order, each newline-terminated.
pub open spec fn serialize_locale_conf_spec(m: LocaleModel) -> Seq<char> {
    join_nl(conf_lines_of_model(m))
}

fn conf_line_exec(key: &str, v: &str) -> (r: String)
    ensures
        r@ == conf_line_of(key@, v@),
{
    let mut out = key.to_owned();
    out.append("=\"");
    out.append(v);
    out.append("\"");
    out
}

/// Serialize a configuration in `KEY="value"` form, as
/// `serialize_locale_conf_spec` describes.
pub fn serialize_locale_conf(info: &LocaleInfo) -> (r: String)
    ensures
        r@ == serialize_locale_conf_spec(info@),
{
    let mut lines: Vec<String> = Vec::new();
    lines.push(conf_line_exec("LANG", info.lang.as_str()));
    lines.push(conf_line_exec("LC_COLLATE", info.lc_collate.as_str()));
    lines.push(conf_line_exec("LC_CTYPE", info.lc_ctype.as_str()));
    lines.push(conf_line_exec("LC_MESSAGES", info.lc_messages.as_str()));
    lines.push(conf_line_exec("LC_MONETARY", info.lc_monetary.as_str()));
    lines.push(conf_line_exec("LC_NUMERIC", info.lc_numeric.as_str()));
    lines.push(conf_line_exec("LC_TIME", info.lc_time.as_str()));
    proof {
        assert(strs_view(lines@) =~= conf_lines_of_model(info@));
    }
    join_lines(&lines)
}

// --- Available locales: the UTF-8 entries of the generation manifest ---

/// One line of the manifest: skip comments and lines without a UTF-8 mark,
/// else keep the first whitespace token.
pub open spec fn avail_step(acc: Seq<Seq<char>>, line: Seq<char>) -> Seq<Seq<char>> {
    let t = trim_start_ws(line);
    if t.len() > 0 && t[0] == '#' {
        acc
    } else if !has_substring(t, "UTF-8"@) {
        acc
    } else {
        let a = first_where(t, 0, not_ws_p());
        if a == t.len() {
            acc
        } else {
            acc.push(t.subrange(a, first_where(t, a, ws_p())))
        }
    }
}

pub open spec fn avail_fold(acc: Seq<Seq<char>>, lines: Seq<Seq<char>>) -> Seq<Seq<char>>
    decreases lines.len(),
{
    if lines.len() == 0 {
        acc
    } else {
        avail_fold(avail_step(acc, lines[0]), lines.drop_first())
    }
}

pub open spec fn available_locales_spec(raw: Seq<char>) -> Seq<Seq<char>> {
    avail_fold(Seq::empty(), lines_of(raw))
}

proof fn lemma_avail_fold_snoc(acc: Seq<Seq<char>>, lines: Seq<Seq<char>>, l: Seq<char>)
    ensures
        avail_fold(acc, lines.push(l)) == avail_step(avail_fold(acc, lines), l),
    decreases lines.len(),
{
    if lines.len() == 0 {
        assert(lines.push(l)[0] == l);
        assert(lines.push(l).drop_first() =~= Seq::<Seq<char>>::empty());
        assert(avail_fold(acc, lines.push(l)) == avail_fold(avail_step(acc, l), Seq::empty()));
    } else {
        lemma_avail_fold_snoc(avail_step(acc, lines[0]), lines.drop_first(), l);
        assert(lines.push(l)[0] == lines[0]);
        assert(lines.push(l).drop_first() =~= lines.drop_first().push(l));
    }
}

/// The locales available to generate, as `available_locales_spec` describes.
pub fn available_locales(manifest_content: &str) -> (r: Vec<String>)
    ensures
        strs_view(r@) == available_locales_spec(manifest_content@),
{
    let lines = split_lines(manifest_content);
    let ghost lseq = strs_view(lines@);
    let mut out: Vec<String> = Vec::new();
    let mut i: usize = 0;
    proof {
        assert(lseq.take(0) =~= Seq::<Seq<char>>::empty());
        assert(strs_view(out@) =~= Seq::<Seq<char>>::empty());
    }
    while i < lines.len()
        invariant
            lseq == strs_view(lines@),
            lseq == lines_of(manifest_content@),
            i <= lines@.len(),
            strs_view(out@) == avail_fold(Seq::empty(), lseq.take(i as int)),
        decreases lines@.len() - i,
    {
        let ghost acc_before = strs_view(out@);
        let line = lines[i].as_str();
        proof {
            assert(line@ == lseq[i as int]);
        }
        let t = trim_start(line);
        let tlen = t.unicode_len();
        let skip: bool = if tlen > 0 && t.get_char(0) == '#' {
            true
        } else {
            !contains_str(t, "UTF-8")
        };
        if skip {
            proof {
                assert(avail_step(acc_before, line@) == acc_before);
            }
        } else {
            let a = skip_ws(t, 0);
            if a == tlen {
                proof {
                    assert(avail_step(acc_before, line@) == acc_before);
                }
            } else {
                let b = find_ws(t, a);
                let tok = t.substring_char(a, b).to_owned();
                out.push(tok);
                proof {
                    assert(strs_view(out@) =~= avail_step(acc_before, line@));
                }
            }
        }
        proof {
            assert(lseq.take(i + 1) =~= lseq.take(i as int).push(lseq[i as int]));
            lemma_avail_fold_snoc(Seq::empty(), lseq.take(i as int), lseq[i as int]);
        }
        i += 1;
    }
    proof {
        assert(lseq.take(lines@.len() as int) =~= lseq);
    }
    out
}

// --- Generated locales: the live list, UTF-8 entries normalized ---

/// Normalize the encoding suffix casing: a `.utf8` suffix becomes `.UTF-8`.
pub open spec fn normalize_gen(s: Seq<char>) -> Seq<char> {
    if ".utf8"@.is_suffix_of(s) {
        s.subrange(0, s.len() - 5) + ".UTF-8"@
    } else {
        s
    }
}

pub open spec fn gen_step(acc: Seq<Seq<char>>, line: Seq<char>) -> Seq<Seq<char>> {
    let t = trim_ws(line);
    if ".utf8"@.is_suffix_of(t) || ".UTF-8"@.is_suffix_of(t) {
        acc.push(normalize_gen(t))
    } else {
        acc
    }
}

pub open spec fn gen_fold(acc: Seq<Seq<char>>, lines: Seq<Seq<char>>) -> Seq<Seq<char>>
    decreases lines.len(),
{
    if lines.len() == 0 {
        acc
    } else {
        gen_fold(gen_step(acc, lines[0]), lines.drop_first())
    }
}

pub open spec fn generated_locales_spec(raw: Seq<char>) -> Seq<Seq<char>> {
    gen_fold(Seq::empty(), lines_of(raw))
}

proof fn lemma_gen_fold_snoc(acc: Seq<Seq<char>>, lines: Seq<Seq<char>>, l: Seq<char>)
    ensures
        gen_fold(acc, lines.push(l)) == gen_step(gen_fold(acc, lines), l),
    decreases lines.len(),
{
    if lines.len() == 0 {
        assert(lines.push(l)[0] == l);
        assert(lines.push(l).drop_first() =~= Seq::<Seq<char>>::empty());
        assert(gen_fold(acc, lines.push(l)) == gen_fold(gen_step(acc, l), Seq::empty()));
    } else {
        lemma_gen_fold_snoc(gen_step(acc, lines[0]), lines.drop_first(), l);
        assert(lines.push(l)[0] == lines[0]);
        assert(lines.push(l).drop_first() =~= lines.drop_first().push(l));
    }
}

/// The locales already generated on the host, as `generated_locales_spec`
/// describes.
pub fn generated_locales(locale_list: &str) -> (r: Vec<String>)
    ensures
        strs_view(r@) == generated_locales_spec(locale_list@),
{
    let lines = split_lines(locale_list);
    let ghost lseq = strs_view(lines@);
    let mut out: Vec<String> = Vec::new();
    let mut i: usize = 0;
    proof {
        assert(lseq.take(0) =~= Seq::<Seq<char>>::empty());
        assert(strs_view(out@) =~= Seq::<Seq<char>>::empty());
    }
    while i < lines.len()
        invariant
            lseq == strs_view(lines@),
            lseq == lines_of(locale_list@),
            i <= lines@.len(),
            strs_view(out@) == gen_fold(Seq::empty(), lseq.take(i as int)),
        decreases lines@.len() - i,
    {
        let ghost acc_before = strs_view(out@);
        let line = lines[i].as_str();
        proof {
            assert(line@ == lseq[i as int]);
        }
        let t = trim(line);
        let tlen = t.unicode_len();
        if ends_with_str(t, ".utf8") {
            proof {
                reveal_strlit(".utf8");
            }
            let normalized = t.substring_char(0, tlen - 5).to_owned().concat(".UTF-8");
            proof {
                assert(normalized@ =~= normalize_gen(t@));
            }
            out.push(normalized);
            proof {
                assert(strs_view(out@) =~= gen_step(acc_before, line@));
            }
        } else if ends_with_str(t, ".UTF-8") {
            let kept = t.to_owned();
            proof {
                assert(kept@ == normalize_gen(t@));
            }
            out.push(kept);
            proof {
                assert(strs_view(out@) =~= gen_step(acc_before, line@));
            }
        } else {
            proof {
                assert(gen_step(acc_before, line@) == acc_before);
            }
        }
        proof {
            assert(lseq.take(i + 1) =~= lseq.take(i as int).push(lseq[i as int]));
            lemma_gen_fold_snoc(Seq::empty(), lseq.take(i as int), lseq[i as int]);
        }
        i += 1;
    }
    proof {
        assert(lseq.take(lines@.len() as int) =~= lseq);
    }
    out
}


// --- Round trip: parse after serialize ---

/// A category value as the round-trip law needs it: single-line, and with no
/// whitespace or double quote at either end (parsing strips those, so a value
/// carrying them cannot survive re-serialization).
pub open spec fn conf_value_wf(v: Seq<char>) -> bool {
    &&& nl_free(v)
    &&& (v.len() > 0 ==> !is_wspace(v[0]) && v[0] != '"' && !is_wspace(v[v.len() - 1]) && v[
        v.len() - 1
    ] != '"')
}

pub open spec fn locale_model_wf(m: LocaleModel) -> bool {
    &&& conf_value_wf(m.lang)
    &&& conf_value_wf(m.lc_collate)
    &&& conf_value_wf(m.lc_ctype)
    &&& conf_value_wf(m.lc_messages)
    &&& conf_value_wf(m.lc_monetary)
    &&& conf_value_wf(m.lc_numeric)
    &&& conf_value_wf(m.lc_time)
}

/// Trimming strips nothing from a value whose ends are already clean.
proof fn lemma_trim_by_id(s: Seq<char>, p: spec_fn(char) -> bool)
    requires
        s.len() > 0 ==> !p(s[0]) && !p(s[s.len() - 1]),
    ensures
        trim_by(s, p) == s,
{
    if s.len() == 0 {
        lemma_first_where_is(s, 0, neg_p(p), 0);
        lemma_last_until_is(s, 0, p, 0);
        assert(trim_by(s, p) =~= s);
    } else {
        assert(neg_p(p)(s[0]));
        lemma_first_where_is(s, 0, neg_p(p), 0);
        lemma_last_until_is(s, s.len() as int, p, s.len() as int);
        assert(trim_by(s, p) =~= s);
    }
}

/// Re-parsing one serialized line assigns exactly the serialized value to the
/// serialized key.
proof fn lemma_conf_round_line(m: LocaleModel, key: Seq<char>, v: Seq<char>)
    requires
        conf_value_wf(v),
        key.len() > 0,
        key[0] != '#',
        forall|j: int| 0 <= j < key.len() ==> !is_wspace(#[trigger] key[j]) && key[j] != '=',
    ensures
        conf_line_apply(m, conf_line_of(key, v)) == locale_key_update(m, key, v),
{
    reveal_strlit("=\"");
    reveal_strlit("\"");
    assert("=\""@ =~= seq!['=', '"']);
    assert("\""@ =~= seq!['"']);
    let line = conf_line_of(key, v);
    let n = line.len() as int;
    assert(n == key.len() + 2 + v.len() + 1);
    assert(line[0] == key[0]);
    assert(line[n - 1] == '"');
    lemma_trim_by_id(line, ws_p());
    assert(trim_ws(line) == line);
    let e = key.len() as int;
    assert(forall|j: int| 0 <= j < e ==> line[j] == key[j]);
    assert(line[e] == '=');
    lemma_first_where_is(line, 0, eq_p('='), e);
    assert(line.subrange(0, e) =~= key);
    let vraw = line.subrange(e + 1, n);
    assert(vraw =~= seq!['"'] + v + seq!['"']);
    assert(vraw.len() == v.len() + 2);
    if v.len() == 0 {
        assert(vraw[0] == '"' && vraw[1] == '"');
        lemma_first_where_is(vraw, 0, neg_p(quote_p()), 2);
        lemma_last_until_is(vraw, 2, quote_p(), 0);
        assert(trim_quotes(vraw) =~= v);
    } else {
        assert(vraw[0] == '"');
        assert(vraw[1] == v[0]);
        assert(!quote_p()(vraw[1]));
        lemma_first_where_is(vraw, 0, neg_p(quote_p()), 1);
        assert(vraw[vraw.len() - 1] == '"');
        assert(vraw[vraw.len() - 2] == v[v.len() - 1]);
        lemma_last_until_is(vraw, vraw.len() as int, quote_p(), vraw.len() - 1);
        assert(trim_quotes(vraw) =~= v);
    }
    lemma_trim_by_id(v, ws_p());
    assert(trim_ws(trim_quotes(vraw)) == v);
}

/// The round-trip law: serializing a well-formed configuration in
/// `KEY="value"` form and parsing it back yields the same configuration, so
/// parse and serialize are mutually consistent and a second
/// parse-serialize-parse cycle can never drift.
pub proof fn lemma_locale_conf_round_trip(m: LocaleModel)
    requires
        locale_model_wf(m),
    ensures
        parse_locale_conf_spec(serialize_locale_conf_spec(m)) == m,
{
    reveal_strlit("LANG");
    reveal_strlit("LC_COLLATE");
    reveal_strlit("LC_CTYPE");
    reveal_strlit("LC_MESSAGES");
    reveal_strlit("LC_MONETARY");
    reveal_strlit("LC_NUMERIC");
    reveal_strlit("LC_TIME");
    reveal_strlit("=\"");
    reveal_strlit("\"");
    assert("=\""@ =~= seq!['=', '"']);
    assert("\""@ =~= seq!['"']);
    let ls = conf_lines_of_model(m);
    assert forall|k: int| 0 <= k < ls.len() implies nl_free(#[trigger] ls[k]) by {
        let line = ls[k];
        assert(conf_value_wf(m.lang) && conf_value_wf(m.lc_collate) && conf_value_wf(m.lc_ctype)
            && conf_value_wf(m.lc_messages) && conf_value_wf(m.lc_monetary) && conf_value_wf(
            m.lc_numeric,
        ) && conf_value_wf(m.lc_time));
        assert(nl_free(line));
    }
    lemma_lines_of_join_nl(ls);
    assert(lines_of(serialize_locale_conf_spec(m)) == ls);
    let m0 = empty_locale_model();
    lemma_conf_round_line(m0, "LANG"@, m.lang);
    let m1 = locale_key_update(m0, "LANG"@, m.lang);
    lemma_conf_round_line(m1, "LC_COLLATE"@, m.lc_collate);
    let m2 = locale_key_update(m1, "LC_COLLATE"@, m.lc_collate);
    lemma_conf_round_line(m2, "LC_CTYPE"@, m.lc_ctype);
    let m3 = locale_key_update(m2, "LC_CTYPE"@, m.lc_ctype);
    lemma_conf_round_line(m3, "LC_MESSAGES"@, m.lc_messages);
    let m4 = locale_key_update(m3, "LC_MESSAGES"@, m.lc_messages);
    lemma_conf_round_line(m4, "LC_MONETARY"@, m.lc_monetary);
    let m5 = locale_key_update(m4, "LC_MONETARY"@, m.lc_monetary);
    lemma_conf_round_line(m5, "LC_NUMERIC"@, m.lc_numeric);
    let m6 = locale_key_update(m5, "LC_NUMERIC"@, m.lc_numeric);
    lemma_conf_round_line(m6, "LC_TIME"@, m.lc_time);
    let m7 = locale_key_update(m6, "LC_TIME"@, m.lc_time);
    let l1 = ls.drop_first();
    let l2 = l1.drop_first();
    let l3 = l2.drop_first();
    let l4 = l3.drop_first();
    let l5 = l4.drop_first();
    let l6 = l5.drop_first();
    let l7 = l6.drop_first();
    assert(l7 =~= Seq::<Seq<char>>::empty());
    assert(conf_fold(m0, ls) == conf_fold(m1, l1));
    assert(l1[0] == ls[1]);
    assert(conf_fold(m1, l1) == conf_fold(m2, l2));
    assert(l2[0] == ls[2]);
    assert(conf_fold(m2, l2) == conf_fold(m3, l3));
    assert(l3[0] == ls[3]);
    assert(conf_fold(m3, l3) == conf_fold(m4, l4));
    assert(l4[0] == ls[4]);
    assert(conf_fold(m4, l4) == conf_fold(m5, l5));
    assert(l5[0] == ls[5]);
    assert(conf_fold(m5, l5) == conf_fold(m6, l6));
    assert(l6[0] == ls[6]);
    assert(conf_fold(m6, l6) == conf_fold(m7, l7));
    assert(conf_fold(m7, l7) == m7);
    assert("LANG"@.len() == 4 && "LC_COLLATE"@.len() == 10 && "LC_CTYPE"@.len() == 8
        && "LC_MESSAGES"@.len() == 11 && "LC_MONETARY"@.len() == 11 && "LC_NUMERIC"@.len() == 10
        && "LC_TIME"@.len() == 7);
    assert("LC_COLLATE"@[3] == 'C' && "LC_NUMERIC"@[3] == 'N');
    assert("LC_MESSAGES"@[4] == 'E' && "LC_MONETARY"@[4] == 'O');
    assert("LC_NUMERIC"@ != "LC_COLLATE"@);
    assert("LC_MONETARY"@ != "LC_MESSAGES"@);
    assert(m7 == m);
}

// --- Aggregate status ---

/// Build the full status snapshot from the three probe inputs and the reboot
/// sentinel. The snapshot is a function of these inputs alone: every field is
/// derived fresh from them in the same call, so a status built after a
/// mutation reflects exactly what the host reported, never a cached
/// pre-mutation value.
pub fn build_locale_status(
    conf_content: &str,
    manifest_content: &str,
    locale_list: &str,
    reboot_required: bool,
) -> (r: LocaleStatus)
    ensures
        r@.current == parse_locale_conf_spec(conf_content@),
        r@.available_locales == available_locales_spec(manifest_content@),
        r@.generated_locales == generated_locales_spec(locale_list@),
        r@.reboot_required == reboot_required,
{
    let current = parse_locale_conf(conf_content);
    let available = available_locales(manifest_content);
    let generated = generated_locales(locale_list);
    proof {
        assert(available@.map_values(|l: String| l@) == strs_view(available@));
        assert(generated@.map_values(|l: String| l@) == strs_view(generated@));
    }
    LocaleStatus {
        current,
        available_locales: available,
        generated_locales: generated,
        reboot_required,
    }
}

} // verus!
