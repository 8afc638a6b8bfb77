//! The general guarantees of the reconstruction, stated and proved over the
//! specification model: statement order preservation, first-seen immutability
//! of the primary location, file/location index consistency, and completeness
//! of the returned file table.

use vstd::prelude::*;

use crate::ast::DirectiveV;
use crate::ast::FileV;
use crate::ast::FunctionV;
use crate::ast::StatementV;
use crate::outcome::OutcomeV;
use crate::parse::body_run;
use crate::parse::body_step;
use crate::parse::end_index;
use crate::parse::function_body_spec;
use crate::parse::init_body_state;
use crate::parse::loc_indices_resolved;
use crate::parse::post;
use crate::parse::scan_spec;
use crate::parse::search;
use crate::parse::trailer;
use crate::parse::BodyState;
use crate::parse::ErrorV;
use crate::parse::SearchV;
use crate::parse::TrailerV;

verus! {

/// Statement order is preserved, one line at a time: a consumed line only
/// appends to the statement sequence — one classified statement, preceded by
/// a comment when the line carries one — and never reorders or rewrites what
/// came before; the appended classified statement is never itself a comment.
pub proof fn lemma_step_preserves_order(id: Seq<char>, st: BodyState, t: Seq<char>, off: int)
    requires
        body_step(id, st, t, off) is Ok,
    ensures
        ({
            let st2 = body_step(id, st, t, off)->Ok_0;
            &&& st.stmts.len() < st2.stmts.len() <= st.stmts.len() + 2
            &&& st2.stmts.subrange(0, st.stmts.len() as int) == st.stmts
            &&& !(st2.stmts.last() is Comment)
            &&& (st2.stmts.len() == st.stmts.len() + 2 ==> st2.stmts[st.stmts.len() as int]
                is Comment)
        }),
{
    let st2 = body_step(id, st, t, off)->Ok_0;
    assert(st2.stmts.subrange(0, st.stmts.len() as int) =~= st.stmts);
}

/// Statement order is preserved across a whole body run: everything already
/// emitted stays in place, as a prefix of the final statement sequence.
pub proof fn lemma_run_preserves_order(
    id: Seq<char>,
    st: BodyState,
    lines: Seq<Seq<char>>,
    i: int,
    end: int,
    off: int,
)
    requires
        body_run(id, st, lines, i, end, off) is Ok,
    ensures
        st.stmts.is_prefix_of(body_run(id, st, lines, i, end, off)->Ok_0.stmts),
    decreases end - i,
{
    let res = body_run(id, st, lines, i, end, off)->Ok_0;
    if !(0 <= i < end && end <= lines.len()) {
        assert(st.stmts.subrange(0, st.stmts.len() as int) =~= st.stmts);
    } else {
        let t = crate::chars::trim_spec(lines[i]);
        if t.len() == 0 {
            lemma_run_preserves_order(id, st, lines, i + 1, end, off);
        } else {
            let st2 = body_step(id, st, t, off)->Ok_0;
            lemma_step_preserves_order(id, st, t, off);
            lemma_run_preserves_order(id, st2, lines, i + 1, end, off + 1);
            assert(res.stmts.subrange(0, st.stmts.len() as int) =~= st2.stmts.subrange(
                0,
                st2.stmts.len() as int,
            ).subrange(0, st.stmts.len() as int));
        }
    }
}

/// First-seen immutability, one line at a time: once the primary location is
/// set, no later location directive changes it, even though the current
/// location context does keep updating.
pub proof fn lemma_step_loc_immutable(id: Seq<char>, st: BodyState, t: Seq<char>, off: int)
    requires
        body_step(id, st, t, off) is Ok,
        st.loc is Some,
    ensures
        body_step(id, st, t, off)->Ok_0.loc == st.loc,
        crate::ast::directive_of(crate::ast::node_text(t)) matches Some(DirectiveV::Loc(l))
            ==> body_step(id, st, t, off)->Ok_0.cur == Some(l),
{
}

/// First-seen immutability across a whole body run: the primary location in
/// force when the run starts is still the primary location when it ends.
pub proof fn lemma_run_loc_immutable(
    id: Seq<char>,
    st: BodyState,
    lines: Seq<Seq<char>>,
    i: int,
    end: int,
    off: int,
)
    requires
        body_run(id, st, lines, i, end, off) is Ok,
        st.loc is Some,
    ensures
        body_run(id, st, lines, i, end, off)->Ok_0.loc == st.loc,
    decreases end - i,
{
    if !(0 <= i < end && end <= lines.len()) {
    } else {
        let t = crate::chars::trim_spec(lines[i]);
        if t.len() == 0 {
            lemma_run_loc_immutable(id, st, lines, i + 1, end, off);
        } else {
            let st2 = body_step(id, st, t, off)->Ok_0;
            lemma_step_loc_immutable(id, st, t, off);
            lemma_run_loc_immutable(id, st2, lines, i + 1, end, off + 1);
        }
    }
}

/// Whether a builder state keeps the function's file and primary location
/// index-consistent whenever both are set.
pub open spec fn state_consistent(st: BodyState) -> bool {
    st.file is Some && st.loc is Some ==> st.file->Some_0.index == st.loc->Some_0.file_index
}

/// Index consistency, one line at a time: the adoption rules never let the
/// function's file and primary location disagree on the file index.
pub proof fn lemma_step_consistent(id: Seq<char>, st: BodyState, t: Seq<char>, off: int)
    requires
        body_step(id, st, t, off) is Ok,
        state_consistent(st),
    ensures
        state_consistent(body_step(id, st, t, off)->Ok_0),
{
}

/// Index consistency across a whole body run.
pub proof fn lemma_run_consistent(
    id: Seq<char>,
    st: BodyState,
    lines: Seq<Seq<char>>,
    i: int,
    end: int,
    off: int,
)
    requires
        body_run(id, st, lines, i, end, off) is Ok,
        state_consistent(st),
    ensures
        state_consistent(body_run(id, st, lines, i, end, off)->Ok_0),
    decreases end - i,
{
    if !(0 <= i < end && end <= lines.len()) {
    } else {
        let t = crate::chars::trim_spec(lines[i]);
        if t.len() == 0 {
            lemma_run_consistent(id, st, lines, i + 1, end, off);
        } else {
            let st2 = body_step(id, st, t, off)->Ok_0;
            lemma_step_consistent(id, st, t, off);
            lemma_run_consistent(id, st2, lines, i + 1, end, off + 1);
        }
    }
}

/// Index consistency for a body built from scratch: when [`function_body_spec`]
/// succeeds and both the file and the primary location ended up set, their
/// file indices agree.
pub proof fn lemma_body_file_loc_consistent(lines: Seq<Seq<char>>, path: Seq<char>, f: FunctionV)
    requires
        function_body_spec(lines, path) == Ok::<FunctionV, ErrorV>(f),
        f.file is Some,
        f.loc is Some,
    ensures
        f.file->Some_0.index == f.loc->Some_0.file_index,
{
    lemma_run_consistent(path, init_body_state(), lines, 1, lines.len() as int, 0);
}

/// Whether every binding of a file table carries the index it is keyed by.
pub open spec fn table_indexed(t: Map<usize, FileV>) -> bool {
    forall|k: usize| t.contains_key(k) ==> (#[trigger] t[k]).index == k
}

proof fn lemma_search_table_indexed(
    lines: Seq<Seq<char>>,
    i: int,
    syms: Seq<Seq<char>>,
    table: Map<usize, FileV>,
    path: Seq<char>,
    marker: Seq<char>,
)
    requires
        table_indexed(table),
    ensures
        match search(lines, i, syms, table, path, marker) {
            Ok(SearchV::Found { table: t, .. }) => table_indexed(t),
            Ok(SearchV::NoMatch { table: t, .. }) => table_indexed(t),
            Err(_) => true,
        },
    decreases lines.len() - i,
{
    if 0 <= i < lines.len() {
        let t = crate::chars::trim_spec(lines[i]);
        if crate::chars::starts_with(t, marker) && crate::ast::label_id_of(t) is Some {
            let sym = crate::parse::demangled_of(crate::ast::label_id_of(t)->Some_0);
            if sym != path {
                lemma_search_table_indexed(lines, i + 1, syms.push(sym), table, path, marker);
            }
        } else {
            match crate::ast::file_directive_of(t) {
                Some(f) => {
                    if table.contains_key(f.index) {
                        if table[f.index].path == f.path {
                            lemma_search_table_indexed(lines, i + 1, syms, table, path, marker);
                        }
                    } else {
                        lemma_search_table_indexed(
                            lines,
                            i + 1,
                            syms,
                            table.insert(f.index, f),
                            path,
                            marker,
                        );
                    }
                },
                None => {
                    lemma_search_table_indexed(lines, i + 1, syms, table, path, marker);
                },
            }
        }
    }
}

proof fn lemma_trailer_file_index(
    lines: Seq<Seq<char>>,
    i: int,
    table: Map<usize, FileV>,
    want: usize,
)
    requires
        table_indexed(table),
    ensures
        match trailer(lines, i, table, want) {
            Ok(tr) => tr.file matches Some(v) ==> v.index == want,
            Err(_) => true,
        },
    decreases lines.len() - i,
{
    if 0 <= i < lines.len() {
        let t = crate::chars::trim_spec(lines[i]);
        match crate::ast::file_directive_of(t) {
            Some(f) => {
                if table.contains_key(f.index) {
                    if table[f.index].path == f.path {
                        lemma_trailer_file_index(lines, i + 1, table, want);
                    }
                } else {
                    let t2 = table.insert(f.index, f);
                    if !t2.contains_key(want) {
                        lemma_trailer_file_index(lines, i + 1, t2, want);
                    }
                }
            },
            None => {
                if !table.contains_key(want) {
                    lemma_trailer_file_index(lines, i + 1, table, want);
                }
            },
        }
    }
}

/// File/location index consistency for a whole scan: whenever the scan
/// returns a found function whose file and primary location are both set,
/// the file's index equals the location's file index.
pub proof fn lemma_scan_file_loc_consistent(
    lines: Seq<Seq<char>>,
    path: Seq<char>,
    marker: Seq<char>,
    f: FunctionV,
    tbl: Map<usize, FileV>,
)
    requires
        scan_spec(lines, path, marker) == Ok::<OutcomeV, ErrorV>(OutcomeV::Found(f, tbl)),
        f.file is Some,
        f.loc is Some,
    ensures
        f.file->Some_0.index == f.loc->Some_0.file_index,
{
    lemma_search_table_indexed(lines, 0, Seq::empty(), Map::empty(), path, marker);
    match search(lines, 0, Seq::empty(), Map::empty(), path, marker) {
        Ok(SearchV::Found { at, syms, table }) => {
            let end = end_index(lines, at + 1);
            match function_body_spec(lines.subrange(at + 1, end), path) {
                Ok(fb) => {
                    if fb.file is Some || fb.loc is None {
                        assert(f.file == fb.file && f.loc == fb.loc);
                        lemma_body_file_loc_consistent(lines.subrange(at + 1, end), path, fb);
                    } else {
                        lemma_trailer_file_index(lines, end + 1, table, fb.loc->Some_0.file_index);
                    }
                },
                Err(_) => {
                    assert(false);
                },
            }
        },
        Ok(SearchV::NoMatch { .. }) => {
            assert(false);
        },
        Err(_) => {
            assert(false);
        },
    }
}

/// Completeness: a found result is returned only when every location
/// directive among the function's statements has its file index bound in the
/// returned file table.
pub proof fn lemma_scan_completeness(
    lines: Seq<Seq<char>>,
    path: Seq<char>,
    marker: Seq<char>,
    f: FunctionV,
    tbl: Map<usize, FileV>,
)
    requires
        scan_spec(lines, path, marker) == Ok::<OutcomeV, ErrorV>(OutcomeV::Found(f, tbl)),
    ensures
        loc_indices_resolved(f.statements, tbl),
{
    match search(lines, 0, Seq::empty(), Map::empty(), path, marker) {
        Ok(SearchV::Found { at, syms, table }) => {
            let end = end_index(lines, at + 1);
            match function_body_spec(lines.subrange(at + 1, end), path) {
                Ok(fb) => {
                    if fb.file is Some || fb.loc is None {
                        assert(post(path, fb.file, fb.loc, fb.statements, table) == Ok::<
                            OutcomeV,
                            ErrorV,
                        >(OutcomeV::Found(f, tbl)));
                    } else {
                        match trailer(lines, end + 1, table, fb.loc->Some_0.file_index) {
                            Ok(tr) => {
                                assert(post(path, tr.file, fb.loc, fb.statements, tr.table)
                                    == Ok::<OutcomeV, ErrorV>(OutcomeV::Found(f, tbl)));
                            },
                            Err(_) => {
                                assert(false);
                            },
                        }
                    }
                },
                Err(_) => {
                    assert(false);
                },
            }
        },
        Ok(SearchV::NoMatch { .. }) => {
            assert(false);
        },
        Err(_) => {
            assert(false);
        },
    }
}

} // verus!
