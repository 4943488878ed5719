//! Repository catalog parser: turns the free-text output of a package
//! repository search into structured installable-kernel records.
//!
//! The grammar is a stateful two-line one. A line opening with a known
//! repository section prefix and a `/` starts a candidate (first token is
//! `section/package`, second is the version); a following description line
//! attaches its text after the first colon to the most recently pushed
//! candidate of that name. Header and documentation sub-packages are
//! discarded and also clear the attach point, so a stray description line
//! can never reach the wrong package.

use vstd::prelude::*;

use crate::kernels::{flavor_of_package, package_flavor};
use crate::model::{InstallableKernel, InstallableModel};
use crate::text::{
    eq_p, find_char, find_ws, first_where, lines_of, not_ws_p, skip_ws, split_lines,
    starts_with_str, str_eq, strs_view, trim, trim_ws, ws_p,
};

verus! {

/// The mathematical view of a vector of records.
pub open spec fn records_view(rs: Seq<InstallableKernel>) -> Seq<InstallableModel> {
    rs.map_values(|k: InstallableKernel| k@)
}

/// Parser state after some prefix of the lines: the records emitted so far
/// and the package name a description line would attach to.
pub ghost struct CatalogState {
    pub records: Seq<InstallableModel>,
    pub current: Option<Seq<char>>,
}

pub open spec fn is_header_line(line: Seq<char>) -> bool {
    "core/"@.is_prefix_of(line) || "extra/"@.is_prefix_of(line) || "community/"@.is_prefix_of(
        line,
    )
}

pub open spec fn tok1_start(line: Seq<char>) -> int {
    first_where(line, 0, not_ws_p())
}

pub open spec fn tok1_end(line: Seq<char>) -> int {
    first_where(line, tok1_start(line), ws_p())
}

pub open spec fn tok2_start(line: Seq<char>) -> int {
    first_where(line, tok1_end(line), not_ws_p())
}

pub open spec fn tok2_end(line: Seq<char>) -> int {
    first_where(line, tok2_start(line), ws_p())
}

/// A header line is well formed when it has at least two whitespace tokens.
pub open spec fn has_two_tokens(line: Seq<char>) -> bool {
    tok2_start(line) < line.len()
}

pub open spec fn full_name_of(line: Seq<char>) -> Seq<char> {
    line.subrange(tok1_start(line), tok1_end(line))
}

pub open spec fn version_of(line: Seq<char>) -> Seq<char> {
    line.subrange(tok2_start(line), tok2_end(line))
}

/// The package name: the piece of the first token between its first `/` and
/// its second `/` or end; a fallback name when no `/` is present.
pub open spec fn pkg_name_of(full: Seq<char>) -> Seq<char> {
    let j0 = first_where(full, 0, eq_p('/'));
    if j0 == full.len() {
        "unknown-pkg"@
    } else {
        full.subrange(j0 + 1, first_where(full, j0 + 1, eq_p('/')))
    }
}

/// Header and documentation sub-packages never become candidates.
pub open spec fn is_discarded(pkg: Seq<char>) -> bool {
    "-headers"@.is_suffix_of(pkg) || "-docs"@.is_suffix_of(pkg)
}

pub open spec fn is_desc_line(line: Seq<char>) -> bool {
    "Description:"@.is_prefix_of(trim_ws(line))
}

/// The description text: everything on the raw line after its first colon,
/// trimmed.
pub open spec fn desc_text_of(line: Seq<char>) -> Seq<char> {
    let c0 = first_where(line, 0, eq_p(':'));
    if c0 == line.len() {
        Seq::empty()
    } else {
        trim_ws(line.subrange(c0 + 1, line.len() as int))
    }
}

/// Index of the last record with the given package name, `-1` if none.
pub open spec fn last_index_with_name(records: Seq<InstallableModel>, name: Seq<char>) -> int
    decreases records.len(),
{
    if records.len() == 0 {
        -1
    } else if records.last().package_name == name {
        records.len() - 1
    } else {
        last_index_with_name(records.drop_last(), name)
    }
}

/// Attach a description to the last record with the given name, if any.
pub open spec fn attach_desc(
    records: Seq<InstallableModel>,
    name: Seq<char>,
    desc: Seq<char>,
) -> Seq<InstallableModel> {
    let i = last_index_with_name(records, name);
    if i >= 0 {
        records.update(
            i,
            InstallableModel {
                package_name: records[i].package_name,
                version: records[i].version,
                description: desc,
                flavor: records[i].flavor,
            },
        )
    } else {
        records
    }
}

/// One step of the two-line grammar.
pub open spec fn catalog_step(st: CatalogState, line: Seq<char>) -> CatalogState {
    if is_header_line(line) {
        if !has_two_tokens(line) {
            st
        } else {
            let pkg = pkg_name_of(full_name_of(line));
            if is_discarded(pkg) {
                CatalogState { records: st.records, current: None }
            } else {
                CatalogState {
                    records: st.records.push(
                        InstallableModel {
                            package_name: pkg,
                            version: version_of(line),
                            description: Seq::empty(),
                            flavor: package_flavor(pkg),
                        },
                    ),
                    current: Some(pkg),
                }
            }
        }
    } else if is_desc_line(line) {
        match st.current {
            Some(name) => CatalogState {
                records: attach_desc(st.records, name, desc_text_of(line)),
                current: None,
            },
            None => st,
        }
    } else {
        st
    }
}

pub open spec fn catalog_init() -> CatalogState {
    CatalogState { records: Seq::empty(), current: None }
}

pub open spec fn catalog_fold(st: CatalogState, lines: Seq<Seq<char>>) -> CatalogState
    decreases lines.len(),
{
    if lines.len() == 0 {
        st
    } else {
        catalog_fold(catalog_step(st, lines[0]), lines.drop_first())
    }
}

/// What parsing the whole search output yields.
pub open spec fn parse_catalog_spec(raw: Seq<char>) -> Seq<InstallableModel> {
    catalog_fold(catalog_init(), lines_of(raw)).records
}

proof fn lemma_catalog_fold_snoc(st: CatalogState, lines: Seq<Seq<char>>, l: Seq<char>)
    ensures
        catalog_fold(st, lines.push(l)) == catalog_step(catalog_fold(st, lines), l),
    decreases lines.len(),
{
    if lines.len() == 0 {
        assert(lines.push(l)[0] == l);
        assert(lines.push(l).drop_first() =~= Seq::<Seq<char>>::empty());
        assert(catalog_fold(st, lines.push(l)) == catalog_fold(catalog_step(st, l), Seq::empty()));
    } else {
        lemma_catalog_fold_snoc(catalog_step(st, lines[0]), lines.drop_first(), l);
        assert(lines.push(l)[0] == lines[0]);
        assert(lines.push(l).drop_first() =~= lines.drop_first().push(l));
    }
}

proof fn lemma_last_index_is(records: Seq<InstallableModel>, name: Seq<char>, r: int)
    requires
        -1 <= r < records.len(),
        forall|j: int| r < j < records.len() ==> records[j].package_name != name,
        r >= 0 ==> records[r].package_name == name,
    ensures
        last_index_with_name(records, name) == r,
    decreases records.len(),
{
    if records.len() > 0 && r < records.len() - 1 {
        assert(records.last() == records[records.len() - 1]);
        lemma_last_index_is(records.drop_last(), name, r);
    }
}

spec fn opt_view(c: Option<String>) -> Option<Seq<char>> {
    match c {
        Some(s) => Some(s@),
        None => None,
    }
}

/// Parse one well-formed header line into its package name and version.
fn parse_header_tokens(line: &str) -> (r: Option<(String, String)>)
    ensures
        r is Some <==> has_two_tokens(line@),
        r matches Some((pkg, ver)) ==> pkg@ == pkg_name_of(full_name_of(line@)) && ver@
            == version_of(line@),
{
    let llen = line.unicode_len();
    let a0 = skip_ws(line, 0);
    let b0 = find_ws(line, a0);
    let a1 = skip_ws(line, b0);
    if a1 == llen {
        return None;
    }
    let b1 = find_ws(line, a1);
    let full = line.substring_char(a0, b0);
    let ver = line.substring_char(a1, b1).to_owned();
    let flen = full.unicode_len();
    let j0 = find_char(full, 0, '/');
    let pkg: String = if j0 == flen {
        String::from_str("unknown-pkg")
    } else {
        let j1 = find_char(full, j0 + 1, '/');
        full.substring_char(j0 + 1, j1).to_owned()
    };
    Some((pkg, ver))
}

/// The description text of a raw line, as `desc_text_of` describes.
fn parse_desc_text(line: &str) -> (r: String)
    ensures
        r@ == desc_text_of(line@),
{
    let llen = line.unicode_len();
    let c0 = find_char(line, 0, ':');
    if c0 == llen {
        let r = String::new();
        proof {
            assert(r@ =~= desc_text_of(line@));
        }
        r
    } else {
        trim(line.substring_char(c0 + 1, llen)).to_owned()
    }
}

/// Attach a description to the last record with the given name, scanning
/// from the end as `attach_desc` describes.
fn attach_description(records: &mut Vec<InstallableKernel>, name: &str, desc: String)
    ensures
        records_view(final(records)@) == attach_desc(records_view(old(records)@), name@, desc@),
{
    let ghost rv = records_view(records@);
    let mut idx: usize = records.len();
    while idx > 0
        invariant
            idx <= records@.len(),
            records_view(records@) == rv,
            rv == records_view(old(records)@),
            forall|j: int| idx <= j < rv.len() ==> rv[j].package_name != name@,
        decreases idx,
    {
        if str_eq(records[idx - 1].package_name.as_str(), name) {
            proof {
                assert(rv[idx - 1].package_name == name@);
                lemma_last_index_is(rv, name@, idx - 1);
            }
            let e = &records[idx - 1];
            let updated = InstallableKernel {
                package_name: e.package_name.clone(),
                version: e.version.clone(),
                description: desc,
                flavor: e.flavor.clone(),
            };
            records.set(idx - 1, updated);
            proof {
                let urv = records_view(records@);
                let target = attach_desc(rv, name@, desc@);
                assert(urv.len() == target.len());
                assert forall|k: int| 0 <= k < urv.len() implies urv[k] == target[k] by {
                    assert(urv[k] == records@[k]@);
                    if k == idx - 1 {
                        assert(records@[k]@ == target[k]);
                    } else {
                        assert(records@[k]@ == rv[k]);
                        assert(target[k] == rv[k]);
                    }
                }
                assert(urv =~= target);
            }
            return ;
        }
        proof {
            assert(rv[idx - 1].package_name != name@);
        }
        idx -= 1;
    }
    proof {
        lemma_last_index_is(rv, name@, -1);
        assert(records_view(records@) =~= attach_desc(rv, name@, desc@));
    }
}

/// Parse the raw repository search output into the candidate records, as
/// `parse_catalog_spec` describes.
pub fn parse_catalog(raw_search_output: &str) -> (r: Vec<InstallableKernel>)
    ensures
        records_view(r@) == parse_catalog_spec(raw_search_output@),
{
    let lines = split_lines(raw_search_output);
    let ghost lseq = strs_view(lines@);
    let mut records: Vec<InstallableKernel> = Vec::new();
    let mut current: Option<String> = None;
    let mut i: usize = 0;
    proof {
        assert(lseq.take(0) =~= Seq::<Seq<char>>::empty());
        assert(records_view(records@) =~= Seq::<InstallableModel>::empty());
    }
    while i < lines.len()
        invariant
            lseq == strs_view(lines@),
            lseq == lines_of(raw_search_output@),
            i <= lines@.len(),
            catalog_fold(catalog_init(), lseq.take(i as int)) == (CatalogState {
                records: records_view(records@),
                current: opt_view(current),
            }),
        decreases lines@.len() - i,
    {
        let ghost st_before = catalog_fold(catalog_init(), lseq.take(i as int));
        let line = lines[i].as_str();
        proof {
            assert(line@ == lseq[i as int]);
        }
        if starts_with_str(line, "core/") || starts_with_str(line, "extra/") || starts_with_str(
            line,
            "community/",
        ) {
            match parse_header_tokens(line) {
                None => {
                    proof {
                        assert(catalog_step(st_before, line@) == st_before);
                    }
                },
                Some((pkg, ver)) => {
                    if ends_with_headers_or_docs(pkg.as_str()) {
                        current = None;
                        proof {
                            assert(catalog_step(st_before, line@) == (CatalogState {
                                records: st_before.records,
                                current: None,
                            }));
                        }
                    } else {
                        let flavor = flavor_of_package(pkg.as_str());
                        let entry = InstallableKernel {
                            package_name: pkg.clone(),
                            version: ver,
                            description: String::new(),
                            flavor,
                        };
                        let ghost entry_model = entry@;
                        records.push(entry);
                        current = Some(pkg);
                        proof {
                            assert(entry_model.description =~= Seq::<char>::empty());
                            assert(records_view(records@)
                                =~= st_before.records.push(entry_model));
                        }
                    }
                },
            }
        } else {
            let trimmed = trim(line);
            if starts_with_str(trimmed, "Description:") {
                if current.is_some() {
                    let name = current.unwrap();
                    current = None;
                    let desc = parse_desc_text(line);
                    attach_description(&mut records, name.as_str(), desc);
                } else {
                    proof {
                        assert(catalog_step(st_before, line@) == st_before);
                    }
                }
            } else {
                proof {
                    assert(catalog_step(st_before, line@) == st_before);
                }
            }
        }
        proof {
            assert(lseq.take(i + 1) =~= lseq.take(i as int).push(lseq[i as int]));
            lemma_catalog_fold_snoc(catalog_init(), lseq.take(i as int), lseq[i as int]);
        }
        i += 1;
    }
    proof {
        assert(lseq.take(lines@.len() as int) =~= lseq);
    }
    records
}

/// Is the package a headers or docs sub-package, as `is_discarded` describes?
fn ends_with_headers_or_docs(pkg: &str) -> (r: bool)
    ensures
        r == is_discarded(pkg@),
{
    crate::text::ends_with_str(pkg, "-headers") || crate::text::ends_with_str(pkg, "-docs")
}

} // verus!
