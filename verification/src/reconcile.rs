//! Locale reconciliation planning: the argument list handed to the locale
//! control utility, and the edit of the locale generation manifest that
//! enables a requested locale.
//!
//! Both functions only plan; the surrounding plumbing performs the privileged
//! call and the file write, then re-probes and republishes so observers see
//! the host's actual state.

use vstd::prelude::*;

use crate::model::{LocaleInfo, LocaleModel};
use crate::text::{
    ends_with_str, is_wspace, join_lines, join_nl, lemma_first_where_is,
    lemma_lines_of_join_nl, lemma_lines_of_nl_free, lines_of, nl_free, not_ws_p, split_lines,
    starts_with_str, str_eq, strs_view, trim_start, trim_start_ws,
};

verus! {

// --- The set-locale argument list ---

pub open spec fn locale_model_all_empty(m: LocaleModel) -> bool {
    &&& m.lang.len() == 0
    &&& m.lc_collate.len() == 0
    &&& m.lc_ctype.len() == 0
    &&& m.lc_messages.len() == 0
    &&& m.lc_monetary.len() == 0
    &&& m.lc_numeric.len() == 0
    &&& m.lc_time.len() == 0
}

/// The argument a non-empty category contributes: `PREFIX` is `CATEGORY=`.
pub open spec fn cat_arg(prefix: Seq<char>, v: Seq<char>) -> Seq<Seq<char>> {
    if v.len() > 0 {
        seq![prefix + v]
    } else {
        Seq::empty()
    }
}

/// The full argument list: `set-locale` followed by `CATEGORY=value` for
/// every non-empty category, in the fixed order.
pub open spec fn set_locale_args_spec(m: LocaleModel) -> Seq<Seq<char>> {
    seq!["set-locale"@] + cat_arg("LANG="@, m.lang) + cat_arg("LC_COLLATE="@, m.lc_collate)
        + cat_arg("LC_CTYPE="@, m.lc_ctype) + cat_arg("LC_MESSAGES="@, m.lc_messages) + cat_arg(
        "LC_MONETARY="@,
        m.lc_monetary,
    ) + cat_arg("LC_NUMERIC="@, m.lc_numeric) + cat_arg("LC_TIME="@, m.lc_time)
}

fn push_cat(args: &mut Vec<String>, prefix: &str, v: &str)
    ensures
        strs_view(final(args)@) == strs_view(old(args)@) + cat_arg(prefix@, v@),
{
    if !v.is_empty() {
        args.push(prefix.to_owned().concat(v));
        proof {
            assert(strs_view(args@) =~= strs_view(old(args)@) + cat_arg(prefix@, v@));
        }
    } else {
        proof {
            assert(strs_view(args@) =~= strs_view(old(args)@) + cat_arg(prefix@, v@));
        }
    }
}

/// Build the locale-control argument list for the requested categories, in
/// the fixed order. A request with every category empty is a validation
/// error: it is rejected here, before any privileged call could be made.
pub fn plan_set_locale_args(req: &LocaleInfo) -> (r: Result<Vec<String>, String>)
    ensures
        r is Err <==> locale_model_all_empty(req@),
        r matches Ok(args) ==> strs_view(args@) == set_locale_args_spec(req@),
        r matches Err(msg) ==> msg@ == "No locale values supplied"@,
{
    let mut args: Vec<String> = Vec::new();
    args.push(String::from_str("set-locale"));
    proof {
        assert(strs_view(args@) =~= seq!["set-locale"@]);
    }
    push_cat(&mut args, "LANG=", req.lang.as_str());
    push_cat(&mut args, "LC_COLLATE=", req.lc_collate.as_str());
    push_cat(&mut args, "LC_CTYPE=", req.lc_ctype.as_str());
    push_cat(&mut args, "LC_MESSAGES=", req.lc_messages.as_str());
    push_cat(&mut args, "LC_MONETARY=", req.lc_monetary.as_str());
    push_cat(&mut args, "LC_NUMERIC=", req.lc_numeric.as_str());
    push_cat(&mut args, "LC_TIME=", req.lc_time.as_str());
    proof {
        assert(strs_view(args@) =~= set_locale_args_spec(req@));
    }
    if args.len() == 1 {
        proof {
            assert(locale_model_all_empty(req@));
        }
        Err(String::from_str("No locale values supplied"))
    } else {
        proof {
            assert(!locale_model_all_empty(req@));
        }
        Ok(args)
    }
}

// --- Enabling a locale in the generation manifest ---

/// The identifier with a `.UTF-8` suffix stripped.
pub open spec fn strip_utf8_suffix(id: Seq<char>) -> Seq<char> {
    if ".UTF-8"@.is_suffix_of(id) {
        id.subrange(0, id.len() - 6)
    } else {
        id
    }
}

/// The manifest line that enables the identifier.
pub open spec fn gen_target(id: Seq<char>) -> Seq<char> {
    strip_utf8_suffix(id) + " UTF-8"@
}

/// A commented form of the target line: `#` plus the target opens the line.
pub open spec fn is_commented_target(line: Seq<char>, target: Seq<char>) -> bool {
    (seq!['#'] + target).is_prefix_of(trim_start_ws(line))
}

/// The target line already enabled, exactly.
pub open spec fn is_exact_target(line: Seq<char>, target: Seq<char>) -> bool {
    trim_start_ws(line) == target
}

pub open spec fn gen_line_matches(line: Seq<char>, target: Seq<char>) -> bool {
    is_commented_target(line, target) || is_exact_target(line, target)
}

/// Index of the first line matching the target in either form; the line
/// count if none does.
pub open spec fn first_gen_match(lines: Seq<Seq<char>>, i: int, target: Seq<char>) -> int
    decreases lines.len() - i,
{
    if i < 0 || i >= lines.len() {
        lines.len() as int
    } else if gen_line_matches(lines[i], target) {
        i
    } else {
        first_gen_match(lines, i + 1, target)
    }
}

proof fn lemma_first_gen_match_is(lines: Seq<Seq<char>>, i0: int, target: Seq<char>, r: int)
    requires
        0 <= i0 <= r <= lines.len(),
        forall|j: int| i0 <= j < r ==> !gen_line_matches(#[trigger] lines[j], target),
        r == lines.len() || gen_line_matches(lines[r], target),
    ensures
        first_gen_match(lines, i0, target) == r,
    decreases r - i0,
{
    if i0 < r {
        lemma_first_gen_match_is(lines, i0 + 1, target, r);
    }
}

proof fn lemma_first_gen_match_props(lines: Seq<Seq<char>>, i0: int, target: Seq<char>)
    requires
        0 <= i0 <= lines.len(),
    ensures
        i0 <= first_gen_match(lines, i0, target) <= lines.len(),
        first_gen_match(lines, i0, target) < lines.len() ==> gen_line_matches(
            lines[first_gen_match(lines, i0, target)],
            target,
        ),
        forall|j: int| i0 <= j < first_gen_match(lines, i0, target) ==> !gen_line_matches(
            #[trigger] lines[j],
            target,
        ),
    decreases lines.len() - i0,
{
    if i0 < lines.len() && !gen_line_matches(lines[i0], target) {
        lemma_first_gen_match_props(lines, i0 + 1, target);
    }
}

/// The manifest edit that enables the identifier: the first line carrying the
/// target decides. A commented form is uncommented in place (the whole line
/// becomes the target); a line already holding the target exactly, or no
/// matching line at all, means no edit.
pub open spec fn gen_edit_spec(content: Seq<char>, id: Seq<char>) -> Option<Seq<char>> {
    let lines = lines_of(content);
    let target = gen_target(id);
    let i = first_gen_match(lines, 0, target);
    if i < lines.len() && is_commented_target(lines[i], target) {
        Some(join_nl(lines.update(i, target)))
    } else {
        None
    }
}

/// Plan the manifest edit for the identifier: the new manifest content when
/// an edit is needed, nothing when the manifest can stay as it is.
pub fn plan_locale_generation(manifest_content: &str, locale_id: &str) -> (r: Option<String>)
    ensures
        match r {
            Some(c) => gen_edit_spec(manifest_content@, locale_id@) == Some(c@),
            None => gen_edit_spec(manifest_content@, locale_id@) is None,
        },
{
    let idlen = locale_id.unicode_len();
    let stripped: String = if ends_with_str(locale_id, ".UTF-8") {
        proof {
            reveal_strlit(".UTF-8");
        }
        locale_id.substring_char(0, idlen - 6).to_owned()
    } else {
        locale_id.to_owned()
    };
    let target = stripped.concat(" UTF-8");
    let ghost tgt = gen_target(locale_id@);
    proof {
        assert(target@ =~= tgt);
    }
    let hash_target = String::from_str("#").concat(target.as_str());
    proof {
        reveal_strlit("#");
        assert(hash_target@ =~= seq!['#'] + tgt);
    }
    let mut lines = split_lines(manifest_content);
    let ghost lseq = strs_view(lines@);
    let mut i: usize = 0;
    while i < lines.len()
        invariant
            lseq == strs_view(lines@),
            lseq == lines_of(manifest_content@),
            target@ == tgt,
            hash_target@ == seq!['#'] + tgt,
            tgt == gen_target(locale_id@),
            i <= lines@.len(),
            forall|j: int| 0 <= j < i ==> !gen_line_matches(#[trigger] lseq[j], tgt),
        decreases lines@.len() - i,
    {
        let line = lines[i].as_str();
        proof {
            assert(line@ == lseq[i as int]);
        }
        let tr = trim_start(line);
        if starts_with_str(tr, hash_target.as_str()) {
            proof {
                assert(is_commented_target(lseq[i as int], tgt));
                lemma_first_gen_match_is(lseq, 0, tgt, i as int);
            }
            lines.set(i, target.clone());
            let joined = join_lines(&lines);
            proof {
                assert(strs_view(lines@) =~= lseq.update(i as int, tgt));
                assert(joined@ == join_nl(lseq.update(i as int, tgt)));
            }
            return Some(joined);
        }
        if str_eq(tr, target.as_str()) {
            proof {
                assert(is_exact_target(lseq[i as int], tgt));
                assert((seq!['#'] + tgt).len() > trim_start_ws(lseq[i as int]).len());
                assert(!is_commented_target(lseq[i as int], tgt));
                lemma_first_gen_match_is(lseq, 0, tgt, i as int);
            }
            return None;
        }
        proof {
            assert(!gen_line_matches(lseq[i as int], tgt));
        }
        i += 1;
    }
    proof {
        lemma_first_gen_match_is(lseq, 0, tgt, lseq.len() as int);
    }
    None
}

/// A locale identifier the idempotence law covers: after stripping the
/// `.UTF-8` suffix something is left, it does not open with whitespace, and
/// the identifier is a single line.
pub open spec fn locale_id_wf(id: Seq<char>) -> bool {
    &&& nl_free(id)
    &&& strip_utf8_suffix(id).len() > 0
    &&& !is_wspace(strip_utf8_suffix(id)[0])
}

/// The idempotence law for enabling a locale: once an edit has uncommented
/// the target line, planning the same edit on the edited manifest finds the
/// line already enabled and asks for no further write.
pub proof fn lemma_generation_edit_idempotent(content: Seq<char>, id: Seq<char>)
    requires
        locale_id_wf(id),
        gen_edit_spec(content, id) is Some,
    ensures
        gen_edit_spec(gen_edit_spec(content, id)->Some_0, id) is None,
{
    let lines = lines_of(content);
    let target = gen_target(id);
    let i = first_gen_match(lines, 0, target);
    lemma_first_gen_match_props(lines, 0, target);
    assert(i < lines.len() && is_commented_target(lines[i], target));
    let lines2 = lines.update(i, target);
    let c2 = gen_edit_spec(content, id)->Some_0;
    assert(c2 == join_nl(lines2));
    // every line of the edited manifest is newline-free
    lemma_lines_of_nl_free(content);
    reveal_strlit(" UTF-8");
    reveal_strlit(".UTF-8");
    assert(" UTF-8"@.len() == 6);
    assert(".UTF-8"@.len() == 6);
    assert forall|k: int| 0 <= k < strip_utf8_suffix(id).len() implies strip_utf8_suffix(id)[k]
        != '\n' by {
        assert(strip_utf8_suffix(id)[k] == id[k]);
    }
    assert(nl_free(strip_utf8_suffix(id)));
    assert forall|k: int| 0 <= k < target.len() implies target[k] != '\n' by {
        if k < strip_utf8_suffix(id).len() {
            assert(target[k] == strip_utf8_suffix(id)[k]);
        } else {
            assert(target[k] == " UTF-8"@[k - strip_utf8_suffix(id).len()]);
        }
    }
    assert(nl_free(target));
    assert forall|k: int| 0 <= k < lines2.len() implies nl_free(#[trigger] lines2[k]) by {
        if k != i {
            assert(lines2[k] == lines[k]);
        }
    }
    lemma_lines_of_join_nl(lines2);
    assert(lines_of(c2) == lines2);
    // the edited line is now the exact target
    assert(target[0] == strip_utf8_suffix(id)[0]);
    assert(not_ws_p()(target[0]));
    lemma_first_where_is(target, 0, not_ws_p(), 0);
    assert(trim_start_ws(target) =~= target);
    assert(is_exact_target(lines2[i], target));
    assert((seq!['#'] + target).len() > trim_start_ws(lines2[i]).len());
    assert(!is_commented_target(lines2[i], target));
    // and no earlier line matches, as before the edit
    assert forall|j: int| 0 <= j < i implies !gen_line_matches(#[trigger] lines2[j], target) by {
        assert(lines2[j] == lines[j]);
    }
    lemma_first_gen_match_is(lines2, 0, target, i);
}


// --- Mutation outcome messages ---

/// The outcome of the locale-apply mutation, with the messages observers see.
pub fn set_locale_outcome(success: bool, stderr: &str) -> (r: crate::model::CommandResult)
    ensures
        r.success == success,
        success ==> r.message@ == "Locale applied. A reboot may be required."@,
        !success ==> r.message@ == "localectl error: "@ + stderr@,
{
    if success {
        crate::model::CommandResult::ok(
            String::from_str("Locale applied. A reboot may be required."),
        )
    } else {
        crate::model::CommandResult::error(
            String::from_str("localectl error: ").concat(stderr),
        )
    }
}

/// The outcome of the locale-generation mutation.
pub fn generate_locale_outcome(success: bool, locale_id: &str, stderr: &str) -> (r:
    crate::model::CommandResult)
    ensures
        r.success == success,
        success ==> r.message@ == "Locale "@ + locale_id@ + " generated."@,
        !success ==> r.message@ == "locale-gen failed: "@ + stderr@,
{
    if success {
        crate::model::CommandResult::ok(
            String::from_str("Locale ").concat(locale_id).concat(" generated."),
        )
    } else {
        crate::model::CommandResult::error(
            String::from_str("locale-gen failed: ").concat(stderr),
        )
    }
}

} // verus!
