//! Reconstruction of one function from the lines of an assembly translation
//! unit: body building with the file/location resolution protocol, the
//! surrounding symbol scan, and the trailer scan that resolves a file binding
//! stated only after the body.

use std::collections::HashMap;

use vstd::prelude::*;

use crate::ast::comment_of;
use crate::ast::comment_raw;
use crate::ast::directive_of;
use crate::ast::node_text;
use crate::ast::view_opt_file;
use crate::ast::view_opt_loc;
use crate::ast::Comment;
use crate::ast::Directive;
use crate::ast::DirectiveV;
use crate::ast::File;
use crate::ast::FileV;
use crate::ast::Function;
use crate::ast::FunctionV;
use crate::ast::Instruction;
use crate::ast::Label;
use crate::ast::LabelV;
use crate::ast::InstructionV;
use crate::ast::Loc;
use crate::ast::LocV;
use crate::ast::Statement;
use crate::ast::StatementV;
use crate::ast::file_directive_of;
use crate::ast::label_id_of;
use crate::chars::starts_with;
use crate::chars::str_eq;
use crate::chars::str_starts_with;
use crate::chars::trim;
use crate::chars::trim_spec;
use crate::chars::find_char;
use crate::outcome::table_view;
use crate::outcome::OutcomeV;
use crate::outcome::Result as Outcome;

verus! {

broadcast use vstd::std_specs::hash::group_hash_axioms;

/// A fatal condition that aborts the parse of one function.
#[derive(Debug)]
pub enum Error {
    /// A body line classified as none of comment, directive, label or
    /// instruction; carries the function identifier, the zero-based offset of
    /// the line among the body's non-empty lines, and the line text.
    MalformedLine { id: String, line_off: usize, line: String },
    /// The same file index was bound to two different paths.
    InconsistentFileBinding { index: usize, existing_path: String, new_path: String },
    /// A first location contradicted an already-adopted function file.
    InconsistentLocationBinding { id: String, file_index: usize, loc_file_index: usize },
    /// A location among the function's statements had no file binding by
    /// completeness-check time.
    UnresolvedLocationFile { id: String, file_index: usize },
}

/// The abstract value of an [`Error`].
pub ghost enum ErrorV {
    MalformedLine { id: Seq<char>, line_off: int, line: Seq<char> },
    InconsistentFileBinding { index: usize, existing_path: Seq<char>, new_path: Seq<char> },
    InconsistentLocationBinding { id: Seq<char>, file_index: usize, loc_file_index: usize },
    UnresolvedLocationFile { id: Seq<char>, file_index: usize },
}

impl View for Error {
    type V = ErrorV;

    open spec fn view(&self) -> ErrorV {
        match self {
            Error::MalformedLine { id, line_off, line } => ErrorV::MalformedLine {
                id: id@,
                line_off: *line_off as int,
                line: line@,
            },
            Error::InconsistentFileBinding { index, existing_path, new_path } => {
                ErrorV::InconsistentFileBinding {
                    index: *index,
                    existing_path: existing_path@,
                    new_path: new_path@,
                }
            },
            Error::InconsistentLocationBinding { id, file_index, loc_file_index } => {
                ErrorV::InconsistentLocationBinding {
                    id: id@,
                    file_index: *file_index,
                    loc_file_index: *loc_file_index,
                }
            },
            Error::UnresolvedLocationFile { id, file_index } => ErrorV::UnresolvedLocationFile {
                id: id@,
                file_index: *file_index,
            },
        }
    }
}

/// The builder state while a body is consumed: the statements emitted so far,
/// the function's file and primary location once set, and the location
/// context that labels and instructions snapshot.
pub ghost struct BodyState {
    pub stmts: Seq<StatementV>,
    pub file: Option<FileV>,
    pub loc: Option<LocV>,
    pub cur: Option<LocV>,
}

/// The builder state before any body line has been consumed.
pub open spec fn init_body_state() -> BodyState {
    BodyState { stmts: Seq::empty(), file: None, loc: None, cur: None }
}

/// One step of the resolution protocol: classifies the trimmed non-empty line
/// `t`, appends the statements it contributes, and updates the file, primary
/// location and location context by the first-writer rules.
pub open spec fn body_step(id: Seq<char>, st: BodyState, t: Seq<char>, off: int) -> Result<
    BodyState,
    ErrorV,
> {
    let node = node_text(t);
    let stmts1 = match comment_of(comment_raw(t)) {
        Some(c) => st.stmts.push(StatementV::Comment(c)),
        None => st.stmts,
    };
    match directive_of(node) {
        Some(d) => {
            let stmts2 = stmts1.push(StatementV::Directive(d));
            match d {
                DirectiveV::File(f) => {
                    let adopt = st.file is None && match st.loc {
                        Some(l) => l.file_index == f.index,
                        None => true,
                    };
                    Ok(
                        (BodyState {
                            stmts: stmts2,
                            file: if adopt {
                                Some(f)
                            } else {
                                st.file
                            },
                            loc: st.loc,
                            cur: st.cur,
                        }),
                    )
                },
                DirectiveV::Loc(l) => {
                    if st.loc is None && st.file is Some && st.file->Some_0.index != l.file_index {
                        Err(
                            (ErrorV::InconsistentLocationBinding {
                                id,
                                file_index: st.file->Some_0.index,
                                loc_file_index: l.file_index,
                            }),
                        )
                    } else {
                        Ok(
                            (BodyState {
                                stmts: stmts2,
                                file: st.file,
                                loc: if st.loc is None {
                                    Some(l)
                                } else {
                                    st.loc
                                },
                                cur: Some(l),
                            }),
                        )
                    }
                },
                DirectiveV::Other(_) => Ok(
                    (BodyState { stmts: stmts2, file: st.file, loc: st.loc, cur: st.cur }),
                ),
            }
        },
        None => match crate::ast::label_id_of(node) {
            Some(lid) => Ok(
                (BodyState {
                    stmts: stmts1.push(StatementV::Label(LabelV { id: lid, loc: st.cur })),
                    file: st.file,
                    loc: st.loc,
                    cur: st.cur,
                }),
            ),
            None => match crate::ast::instr_text_of(node) {
                Some(tx) => Ok(
                    (BodyState {
                        stmts: stmts1.push(
                            StatementV::Instruction(InstructionV { text: tx, loc: st.cur }),
                        ),
                        file: st.file,
                        loc: st.loc,
                        cur: st.cur,
                    }),
                ),
                None => Err((ErrorV::MalformedLine { id, line_off: off, line: t })),
            },
        },
    }
}

/// Runs [`body_step`] over the lines with index in `[i, end)`, trimming each
/// and skipping the empty ones; `off` counts the non-empty lines already
/// consumed.
pub open spec fn body_run(
    id: Seq<char>,
    st: BodyState,
    lines: Seq<Seq<char>>,
    i: int,
    end: int,
    off: int,
) -> Result<BodyState, ErrorV>
    decreases end - i,
{
    if !(0 <= i < end && end <= lines.len()) {
        Ok(st)
    } else {
        let t = trim_spec(lines[i]);
        if t.len() == 0 {
            body_run(id, st, lines, i + 1, end, off)
        } else {
            match body_step(id, st, t, off) {
                Ok(s2) => body_run(id, s2, lines, i + 1, end, off + 1),
                Err(e) => Err(e),
            }
        }
    }
}

/// What [`function_body`] returns: the function built by running the
/// resolution protocol over every line of the body after the first.
pub open spec fn function_body_spec(lines: Seq<Seq<char>>, path: Seq<char>) -> Result<
    FunctionV,
    ErrorV,
> {
    match body_run(path, init_body_state(), lines, 1, lines.len() as int, 0) {
        Ok(st) => Ok(
            (FunctionV { id: path, file: st.file, loc: st.loc, statements: st.stmts }),
        ),
        Err(e) => Err(e),
    }
}

/// The views of a sequence of owned lines.
pub open spec fn lines_view(lines: Seq<String>) -> Seq<Seq<char>> {
    lines.map_values(|l: String| l@)
}

/// Parses the body of the function `path` from `function_lines`.
///
/// The first line is skipped: it is the line that defined the function and
/// is already accounted for. Every later line is trimmed, empty lines are
/// dropped, and each remaining line contributes its statements in order while
/// the file and primary location follow the first-writer rules.
pub fn function_body(function_lines: Vec<String>, path: &str) -> (r: Result<Function, Error>)
    ensures
        match r {
            Ok(f) => function_body_spec(lines_view(function_lines@), path@) == Ok::<
                FunctionV,
                ErrorV,
            >(f@),
            Err(e) => function_body_spec(lines_view(function_lines@), path@) == Err::<
                FunctionV,
                ErrorV,
            >(e@),
        },
{
    let ghost lv = lines_view(function_lines@);
    let n = function_lines.len();
    let mut statements: Vec<Statement> = Vec::new();
    let mut file: Option<File> = None;
    let mut loc: Option<Loc> = None;
    let mut cur: Option<Loc> = None;
    let mut off: usize = 0;
    let mut i: usize = 1;
    proof {
        assert(statements@.map_values(|s: Statement| s@) =~= Seq::<StatementV>::empty());
    }
    while i < n
        invariant
            n == lv.len(),
            lv == lines_view(function_lines@),
            1 <= i,
            off <= i,
            body_run(path@, init_body_state(), lv, 1, n as int, 0) == body_run(
                path@,
                (BodyState {
                    stmts: statements@.map_values(|s: Statement| s@),
                    file: view_opt_file(file),
                    loc: view_opt_loc(loc),
                    cur: view_opt_loc(cur),
                }),
                lv,
                i as int,
                n as int,
                off as int,
            ),
        decreases n - i,
    {
        let ghost st0 = BodyState {
            stmts: statements@.map_values(|s: Statement| s@),
            file: view_opt_file(file),
            loc: view_opt_loc(loc),
            cur: view_opt_loc(cur),
        };
        let t = trim(function_lines[i].as_str());
        proof {
            assert(lv[i as int] == function_lines@[i as int]@);
            assert(t@ == trim_spec(lv[i as int]));
        }
        if t.as_str().unicode_len() == 0 {
            i = i + 1;
            continue;
        }
        let tn = t.as_str().unicode_len();
        let (node, craw): (String, String) = match find_char(t.as_str(), ';') {
            Some(k) => (
                t.as_str().substring_char(0, k).to_owned(),
                t.as_str().substring_char(k, tn).to_owned(),
            ),
            None => (t.clone(), String::new()),
        };
        proof {
            assert(node@ == node_text(t@));
            assert(craw@ =~= comment_raw(t@));
        }
        if let Some(c) = Comment::new(craw.as_str()) {
            statements.push(Statement::Comment(c));
        }
        proof {
            let expected = match comment_of(comment_raw(t@)) {
                Some(c) => st0.stmts.push(StatementV::Comment(c)),
                None => st0.stmts,
            };
            assert(statements@.map_values(|s: Statement| s@) =~= expected);
        }
        let ghost stmts_mid = statements@.map_values(|s: Statement| s@);
        if let Some(d) = Directive::new(node.as_str()) {
            match &d {
                Directive::File(f) => {
                    if file.is_none() {
                        let adopt = match &loc {
                            Some(l) => l.file_index == f.index,
                            None => true,
                        };
                        if adopt {
                            file = Some(f.dup());
                        }
                    }
                },
                Directive::Loc(l) => {
                    if loc.is_none() {
                        if let Some(ff) = &file {
                            if ff.index != l.file_index {
                                let e = Error::InconsistentLocationBinding {
                                    id: path.to_owned(),
                                    file_index: ff.index,
                                    loc_file_index: l.file_index,
                                };
                                proof {
                                    assert(body_step(path@, st0, t@, off as int) == Err::<
                                        BodyState,
                                        ErrorV,
                                    >(e@));
                                    assert(body_run(path@, st0, lv, i as int, n as int, off as int)
                                        == Err::<BodyState, ErrorV>(e@));
                                }
                                return Err(e);
                            }
                        }
                        loc = Some(l.dup());
                    }
                    cur = Some(l.dup());
                },
                Directive::Other(_) => {},
            }
            statements.push(Statement::Directive(d));
        } else if let Some(lb) = Label::new(node.as_str(), crate::ast::dup_opt_loc(&cur)) {
            statements.push(Statement::Label(lb));
        } else if let Some(ins) = Instruction::new(node.as_str(), crate::ast::dup_opt_loc(&cur)) {
            statements.push(Statement::Instruction(ins));
        } else {
            let e = Error::MalformedLine { id: path.to_owned(), line_off: off, line: t };
            proof {
                assert(body_step(path@, st0, e@->MalformedLine_line, off as int) == Err::<
                    BodyState,
                    ErrorV,
                >(e@));
                assert(body_run(path@, st0, lv, i as int, n as int, off as int) == Err::<
                    BodyState,
                    ErrorV,
                >(e@));
            }
            return Err(e);
        }
        proof {
            let st1 = BodyState {
                stmts: statements@.map_values(|s: Statement| s@),
                file: view_opt_file(file),
                loc: view_opt_loc(loc),
                cur: view_opt_loc(cur),
            };
            let res = body_step(path@, st0, t@, off as int);
            assert(res is Ok);
            assert(st1.stmts =~= res->Ok_0.stmts);
            assert(res->Ok_0 == st1);
            assert(body_run(path@, st0, lv, i as int, n as int, off as int) == body_run(
                path@,
                st1,
                lv,
                i + 1,
                n as int,
                off + 1,
            ));
        }
        off = off + 1;
        i = i + 1;
    }
    let f = Function { id: path.to_owned(), file, loc, statements };
    proof {
        assert(body_run(
            path@,
            (BodyState {
                stmts: f.statements@.map_values(|s: Statement| s@),
                file: view_opt_file(f.file),
                loc: view_opt_loc(f.loc),
                cur: view_opt_loc(cur),
            }),
            lv,
            i as int,
            n as int,
            off as int,
        ) matches Ok(st) && st.stmts == f@.statements && st.file == f@.file && st.loc == f@.loc);
    }
    Ok(f)
}

/// The demangled, human-readable form of the raw symbol `raw`: a function of
/// the symbol text alone.
pub uninterp spec fn demangled_of(raw: Seq<char>) -> Seq<char>;

/// Relies on `rustc_demangle::demangle`: its result depends on the symbol
/// text alone, and the alternate rendering omits the trailing hash, giving
/// the plain fully-qualified path.
#[verifier::external_body]
fn demangle(raw: &str) -> (r: String)
    ensures
        r@ == demangled_of(raw@),
{
    format!("{:#}", rustc_demangle::demangle(raw))
}

/// What the symbol scan finds: the line that defines the target, or the end
/// of the unit; either way the demangled symbols seen so far, in order, and
/// the file bindings collected on the way.
pub ghost enum SearchV {
    Found { at: int, syms: Seq<Seq<char>>, table: Map<usize, FileV> },
    NoMatch { syms: Seq<Seq<char>>, table: Map<usize, FileV> },
}

/// Scans lines from `i` for the first label, prefixed by `marker`, whose
/// demangled identifier equals `path`; every candidate's demangled name is
/// recorded, and file directives outside any body are collected into the
/// table, a conflicting rebinding being fatal.
pub open spec fn search(
    lines: Seq<Seq<char>>,
    i: int,
    syms: Seq<Seq<char>>,
    table: Map<usize, FileV>,
    path: Seq<char>,
    marker: Seq<char>,
) -> Result<SearchV, ErrorV>
    decreases lines.len() - i,
{
    if !(0 <= i < lines.len()) {
        Ok(SearchV::NoMatch { syms, table })
    } else {
        let t = trim_spec(lines[i]);
        if starts_with(t, marker) && label_id_of(t) is Some {
            let sym = demangled_of(label_id_of(t)->Some_0);
            let syms2 = syms.push(sym);
            if sym == path {
                Ok(SearchV::Found { at: i, syms: syms2, table })
            } else {
                search(lines, i + 1, syms2, table, path, marker)
            }
        } else {
            match file_directive_of(t) {
                Some(f) => {
                    if table.contains_key(f.index) {
                        if table[f.index].path == f.path {
                            search(lines, i + 1, syms, table, path, marker)
                        } else {
                            Err(
                                (ErrorV::InconsistentFileBinding {
                                    index: f.index,
                                    existing_path: table[f.index].path,
                                    new_path: f.path,
                                }),
                            )
                        }
                    } else {
                        search(lines, i + 1, syms, table.insert(f.index, f), path, marker)
                    }
                },
                None => search(lines, i + 1, syms, table, path, marker),
            }
        }
    }
}

/// The first line at or after `i` that begins the procedure-end marker, or
/// the length of the unit when none does: the exclusive end of a body that
/// starts at `i`.
pub open spec fn end_index(lines: Seq<Seq<char>>, i: int) -> int
    decreases lines.len() - i,
{
    if !(0 <= i < lines.len()) {
        lines.len() as int
    } else if starts_with(trim_spec(lines[i]), ".cfi_endproc"@) {
        i
    } else {
        end_index(lines, i + 1)
    }
}

/// What the trailer scan yields: the binding adopted for the outstanding
/// location, if one was found, and the table as it then stands.
pub ghost struct TrailerV {
    pub file: Option<FileV>,
    pub table: Map<usize, FileV>,
}

/// Continues the scan after the body to resolve the file of the function's
/// location: file directives are collected as during the search, and as soon
/// as the table binds `want`, that binding is adopted and removed from the
/// table; reaching the end of the unit leaves the function unresolved.
pub open spec fn trailer(
    lines: Seq<Seq<char>>,
    i: int,
    table: Map<usize, FileV>,
    want: usize,
) -> Result<TrailerV, ErrorV>
    decreases lines.len() - i,
{
    if !(0 <= i < lines.len()) {
        Ok(TrailerV { file: None, table })
    } else {
        let t = trim_spec(lines[i]);
        match file_directive_of(t) {
            Some(f) => {
                if table.contains_key(f.index) {
                    if table[f.index].path == f.path {
                        trailer(lines, i + 1, table, want)
                    } else {
                        Err(
                            (ErrorV::InconsistentFileBinding {
                                index: f.index,
                                existing_path: table[f.index].path,
                                new_path: f.path,
                            }),
                        )
                    }
                } else {
                    let t2 = table.insert(f.index, f);
                    if t2.contains_key(want) {
                        Ok(TrailerV { file: Some(t2[want]), table: t2.remove(want) })
                    } else {
                        trailer(lines, i + 1, t2, want)
                    }
                }
            },
            None => {
                if table.contains_key(want) {
                    Ok(TrailerV { file: Some(table[want]), table: table.remove(want) })
                } else {
                    trailer(lines, i + 1, table, want)
                }
            },
        }
    }
}

/// The function's own file binding merged into the table, the first writer
/// per index winning.
pub open spec fn merge_file(table: Map<usize, FileV>, fo: Option<FileV>) -> Map<usize, FileV> {
    match fo {
        Some(f) => if table.contains_key(f.index) {
            table
        } else {
            table.insert(f.index, f)
        },
        None => table,
    }
}

/// Every file directive among the statements from `i` on merged into the
/// table, the first writer per index winning.
pub open spec fn merge_stmts(table: Map<usize, FileV>, stmts: Seq<StatementV>, i: int) -> Map<
    usize,
    FileV,
>
    decreases stmts.len() - i,
{
    if !(0 <= i < stmts.len()) {
        table
    } else {
        let t2 = match stmts[i] {
            StatementV::Directive(DirectiveV::File(f)) => if table.contains_key(f.index) {
                table
            } else {
                table.insert(f.index, f)
            },
            _ => table,
        };
        merge_stmts(t2, stmts, i + 1)
    }
}

/// Whether every location directive among the statements has its file index
/// bound in the table.
pub open spec fn loc_indices_resolved(stmts: Seq<StatementV>, table: Map<usize, FileV>) -> bool {
    forall|k: int|
        0 <= k < stmts.len() ==> ((#[trigger] stmts[k]) matches StatementV::Directive(
            DirectiveV::Loc(l),
        ) ==> table.contains_key(l.file_index))
}

/// The file index of the first location directive from `i` on that the table
/// leaves unbound.
pub open spec fn first_unresolved(stmts: Seq<StatementV>, table: Map<usize, FileV>, i: int) -> Option<
    usize,
>
    decreases stmts.len() - i,
{
    if !(0 <= i < stmts.len()) {
        None
    } else if stmts[i] matches StatementV::Directive(DirectiveV::Loc(l))
        && !table.contains_key(l.file_index) {
        Some((stmts[i]->Directive_0)->Loc_0.file_index)
    } else {
        first_unresolved(stmts, table, i + 1)
    }
}

/// The post-processing of a found function: merge its file and its body's
/// file directives into the table, then demand that every location directive
/// is resolvable there.
pub open spec fn post(
    path: Seq<char>,
    file: Option<FileV>,
    loc: Option<LocV>,
    stmts: Seq<StatementV>,
    table: Map<usize, FileV>,
) -> Result<OutcomeV, ErrorV> {
    let t2 = merge_stmts(merge_file(table, file), stmts, 0);
    if loc_indices_resolved(stmts, t2) {
        Ok(OutcomeV::Found((FunctionV { id: path, file, loc, statements: stmts }), t2))
    } else {
        Err(
            (ErrorV::UnresolvedLocationFile {
                id: path,
                file_index: first_unresolved(stmts, t2, 0)->Some_0,
            }),
        )
    }
}

/// Finds the exclusive end of a body that starts at `from`: the first line
/// there or later that begins the procedure-end marker.
fn find_end(lines: &Vec<String>, from: usize) -> (r: usize)
    requires
        from <= lines@.len(),
    ensures
        r == end_index(lines_view(lines@), from as int),
        from <= r <= lines@.len(),
{
    let ghost lv = lines_view(lines@);
    let n = lines.len();
    let mut j = from;
    while j < n
        invariant
            from <= j <= n,
            n == lv.len(),
            lv == lines_view(lines@),
            end_index(lv, from as int) == end_index(lv, j as int),
        decreases n - j,
    {
        let t = trim(lines[j].as_str());
        proof {
            assert(t@ == trim_spec(lv[j as int]));
        }
        if str_starts_with(t.as_str(), ".cfi_endproc") {
            proof {
                assert(end_index(lv, j as int) == j);
            }
            return j;
        }
        j = j + 1;
    }
    n
}

/// What [`function`] returns for a unit, a target path and a label marker:
/// the whole scan, body build, trailer resolution and completeness check.
pub open spec fn scan_spec(lines: Seq<Seq<char>>, path: Seq<char>, marker: Seq<char>) -> Result<
    OutcomeV,
    ErrorV,
> {
    match search(lines, 0, Seq::empty(), Map::empty(), path, marker) {
        Err(e) => Err(e),
        Ok(SearchV::NoMatch { syms, table }) => Ok(OutcomeV::NotFound(syms)),
        Ok(SearchV::Found { at, syms, table }) => {
            let end = end_index(lines, at + 1);
            match function_body_spec(lines.subrange(at + 1, end), path) {
                Err(e) => Err(e),
                Ok(f) => {
                    if f.file is Some || f.loc is None {
                        post(path, f.file, f.loc, f.statements, table)
                    } else {
                        match trailer(lines, end + 1, table, f.loc->Some_0.file_index) {
                            Err(e) => Err(e),
                            Ok(tr) => post(path, tr.file, f.loc, f.statements, tr.table),
                        }
                    }
                },
            }
        },
    }
}

/// Parses the assembly function whose demangled identifier is `path` from
/// the `lines` of one translation unit. `marker` is the platform-specific
/// prefix that begins function-definition labels.
///
/// Labels carrying that prefix are demangled and compared against `path`;
/// the first match has the lines up to the procedure-end marker handed to
/// [`function_body`], which treats the first of them as part of the
/// definition and skips it. The function's owning file is then resolved —
/// through the trailer scan when a file directive only follows the body —
/// and every location among its statements is checked against the returned
/// file table.
#[verifier::loop_isolation(false)]
pub fn function(lines: &Vec<String>, path: &str, marker: &str) -> (r: Result<Outcome, Error>)
    ensures
        match r {
            Ok(out) => scan_spec(lines_view(lines@), path@, marker@) == Ok::<OutcomeV, ErrorV>(
                out@,
            ),
            Err(e) => scan_spec(lines_view(lines@), path@, marker@) == Err::<OutcomeV, ErrorV>(e@),
        },
{
    let ghost lv = lines_view(lines@);
    let n = lines.len();
    let mut table: HashMap<usize, File> = HashMap::new();
    let mut syms: Vec<String> = Vec::new();
    let mut i: usize = 0;
    let mut at: usize = 0;
    let mut found = false;
    proof {
        assert(syms@.map_values(|s: String| s@) =~= Seq::<Seq<char>>::empty());
        assert(table_view(table@) =~= Map::<usize, FileV>::empty());
    }
    while i < n && !found
        invariant
            i <= n,
            n == lv.len(),
            lv == lines_view(lines@),
            !found ==> search(lv, 0, Seq::empty(), Map::empty(), path@, marker@) == search(
                lv,
                i as int,
                syms@.map_values(|s: String| s@),
                table_view(table@),
                path@,
                marker@,
            ),
            found ==> at < n && search(lv, 0, Seq::empty(), Map::empty(), path@, marker@) == Ok::<
                SearchV,
                ErrorV,
            >(
                (SearchV::Found {
                    at: at as int,
                    syms: syms@.map_values(|s: String| s@),
                    table: table_view(table@),
                }),
            ),
        decreases n - i,
    {
        let ghost syms_old = syms@.map_values(|s: String| s@);
        let ghost tv_old = table_view(table@);
        let t = trim(lines[i].as_str());
        proof {
            assert(t@ == trim_spec(lv[i as int]));
        }
        let mut candidate = false;
        if str_starts_with(t.as_str(), marker) {
            if let Some(lb) = Label::new(t.as_str(), None) {
                candidate = true;
                let sym = demangle(lb.id.as_str());
                let matched = str_eq(sym.as_str(), path);
                proof {
                    assert(sym@ == demangled_of(label_id_of(t@)->Some_0));
                }
                syms.push(sym);
                proof {
                    assert(syms@.map_values(|s: String| s@) =~= syms_old.push(
                        demangled_of(label_id_of(t@)->Some_0),
                    ));
                }
                if matched {
                    at = i;
                    found = true;
                }
            }
        }
        if !candidate {
            if let Some(f) = File::new(t.as_str()) {
                let ghost fv = f@;
                let idx = f.index;
                match table.get(&idx) {
                    Some(existing) => {
                        if !(existing.path == f.path) {
                            let e = Error::InconsistentFileBinding {
                                index: idx,
                                existing_path: existing.path.clone(),
                                new_path: f.path,
                            };
                            proof {
                                assert(search(lv, i as int, syms_old, tv_old, path@, marker@)
                                    == Err::<SearchV, ErrorV>(e@));
                            }
                            return Err(e);
                        }
                    },
                    None => {
                        table.insert(idx, f);
                        proof {
                            assert(table_view(table@) =~= tv_old.insert(idx, fv));
                        }
                    },
                }
            }
        }
        i = i + 1;
    }
    if !found {
        let out = Outcome::NotFound(syms);
        proof {
            assert(scan_spec(lv, path@, marker@) == Ok::<OutcomeV, ErrorV>(out@));
        }
        return Ok(out);
    }
    let ghost tbl0 = table_view(table@);
    let end = find_end(lines, at + 1);
    let mut body: Vec<String> = Vec::new();
    let mut k = at + 1;
    proof {
        assert(body@ =~= lines@.subrange(at + 1, k as int));
    }
    while k < end
        invariant
            at + 1 <= k <= end,
            end <= n,
            n == lines@.len(),
            body@ == lines@.subrange(at + 1, k as int),
        decreases end - k,
    {
        body.push(lines[k].clone());
        proof {
            assert(body@ =~= lines@.subrange(at + 1, k + 1));
        }
        k = k + 1;
    }
    proof {
        assert(lines_view(body@) =~= lv.subrange(at + 1, end as int));
    }
    let fres = function_body(body, path);
    let mut f = match fres {
        Ok(f) => f,
        Err(e) => {
            proof {
                assert(scan_spec(lv, path@, marker@) == Err::<OutcomeV, ErrorV>(e@));
            }
            return Err(e);
        },
    };
    let ghost fv0 = f@;
    if f.file.is_none() && f.loc.is_some() {
        let want: usize = match &f.loc {
            Some(l) => l.file_index,
            None => 0,
        };
        let ghost jstart = end as int + 1;
        let mut j: usize = if end < n {
            end + 1
        } else {
            n
        };
        let mut done = false;
        let mut resolved: Option<File> = None;
        while j < n && !done
            invariant
                j <= n,
                n == lv.len(),
                lv == lines_view(lines@),
                want == fv0.loc->Some_0.file_index,
                !done ==> resolved is None && trailer(lv, jstart, tbl0, want) == trailer(
                    lv,
                    j as int,
                    table_view(table@),
                    want,
                ),
                done ==> (resolved matches Some(v) && trailer(lv, jstart, tbl0, want) == Ok::<
                    TrailerV,
                    ErrorV,
                >((TrailerV { file: Some(v@), table: table_view(table@) }))),
            decreases n - j,
        {
            let ghost tv_old = table_view(table@);
            let t = trim(lines[j].as_str());
            proof {
                assert(t@ == trim_spec(lv[j as int]));
            }
            let mut skip_check = false;
            if let Some(f2) = File::new(t.as_str()) {
                let ghost f2v = f2@;
                let idx = f2.index;
                match table.get(&idx) {
                    Some(existing) => {
                        if existing.path == f2.path {
                            skip_check = true;
                        } else {
                            let e = Error::InconsistentFileBinding {
                                index: idx,
                                existing_path: existing.path.clone(),
                                new_path: f2.path,
                            };
                            proof {
                                assert(trailer(lv, j as int, tv_old, want) == Err::<
                                    TrailerV,
                                    ErrorV,
                                >(e@));
                                assert(scan_spec(lv, path@, marker@) == Err::<OutcomeV, ErrorV>(
                                    e@,
                                ));
                            }
                            return Err(e);
                        }
                    },
                    None => {
                        table.insert(idx, f2);
                        proof {
                            assert(table_view(table@) =~= tv_old.insert(idx, f2v));
                        }
                    },
                }
            }
            if !skip_check {
                let ghost tm_mid = table@;
                let ghost tv_mid = table_view(table@);
                let removed = table.remove(&want);
                match removed {
                    Some(v) => {
                        proof {
                            assert(tm_mid.contains_key(want) && tm_mid[want] == v);
                            assert(v@ == tv_mid[want]);
                            assert(table@ == tm_mid.remove(want));
                            assert(table_view(table@) =~= tv_mid.remove(want));
                        }
                        resolved = Some(v);
                        done = true;
                    },
                    None => {
                        proof {
                            assert(!tm_mid.contains_key(want));
                            assert(table@ == tm_mid.remove(want));
                            assert(table@ =~= tm_mid);
                        }
                    },
                }
            }
            j = j + 1;
        }
        if !done {
            proof {
                assert(trailer(lv, j as int, table_view(table@), want) == Ok::<TrailerV, ErrorV>(
                    (TrailerV { file: None, table: table_view(table@) }),
                ));
            }
        }
        if let Some(v) = resolved {
            f.file = Some(v);
        }
        proof {
            assert(trailer(lv, jstart, tbl0, want) == Ok::<TrailerV, ErrorV>(
                (TrailerV { file: view_opt_file(f.file), table: table_view(table@) }),
            ));
        }
    }
    let ghost trailer_file = view_opt_file(f.file);
    let ghost tbl_resolved = table_view(table@);
    if let Some(ff) = &f.file {
        let ghost tv_old = table_view(table@);
        if !table.contains_key(&ff.index) {
            let d = ff.dup();
            table.insert(d.index, d);
            proof {
                assert(table_view(table@) =~= tv_old.insert(ff.index, ff@));
            }
        }
    }
    proof {
        assert(table_view(table@) == merge_file(tbl_resolved, view_opt_file(f.file)));
    }
    let ghost stmtsv = f@.statements;
    let ghost tblm0 = table_view(table@);
    let mut p: usize = 0;
    while p < f.statements.len()
        invariant
            p <= f.statements@.len(),
            stmtsv == f.statements@.map_values(|s: Statement| s@),
            merge_stmts(tblm0, stmtsv, 0) == merge_stmts(table_view(table@), stmtsv, p as int),
        decreases f.statements@.len() - p,
    {
        let ghost tv_old = table_view(table@);
        match &f.statements[p] {
            Statement::Directive(Directive::File(fd)) => {
                if !table.contains_key(&fd.index) {
                    let d = fd.dup();
                    table.insert(d.index, d);
                    proof {
                        assert(table_view(table@) =~= tv_old.insert(fd.index, fd@));
                    }
                }
            },
            _ => {},
        }
        proof {
            assert(merge_stmts(tv_old, stmtsv, p as int) == merge_stmts(
                table_view(table@),
                stmtsv,
                p + 1,
            ));
        }
        p = p + 1;
    }
    let ghost t2 = table_view(table@);
    let mut q: usize = 0;
    let mut bad = false;
    let mut bad_idx: usize = 0;
    while q < f.statements.len() && !bad
        invariant
            q <= f.statements@.len(),
            stmtsv == f.statements@.map_values(|s: Statement| s@),
            t2 == table_view(table@),
            !bad ==> first_unresolved(stmtsv, t2, 0) == first_unresolved(stmtsv, t2, q as int),
            !bad ==> (forall|k: int|
                0 <= k < q ==> ((#[trigger] stmtsv[k]) matches StatementV::Directive(
                    DirectiveV::Loc(l),
                ) ==> t2.contains_key(l.file_index))),
            bad ==> first_unresolved(stmtsv, t2, 0) == Some(bad_idx) && !loc_indices_resolved(
                stmtsv,
                t2,
            ),
        decreases f.statements@.len() - q,
    {
        match &f.statements[q] {
            Statement::Directive(Directive::Loc(l)) => {
                if !table.contains_key(&l.file_index) {
                    bad = true;
                    bad_idx = l.file_index;
                    proof {
                        assert(stmtsv[q as int] matches StatementV::Directive(DirectiveV::Loc(lw))
                            && lw.file_index == bad_idx && !t2.contains_key(lw.file_index));
                        assert(first_unresolved(stmtsv, t2, q as int) == Some(bad_idx));
                        assert(!loc_indices_resolved(stmtsv, t2));
                    }
                }
            },
            _ => {},
        }
        q = q + 1;
    }
    if bad {
        let e = Error::UnresolvedLocationFile { id: path.to_owned(), file_index: bad_idx };
        proof {
            assert(post(path@, view_opt_file(f.file), fv0.loc, stmtsv, tbl_resolved) == Err::<
                OutcomeV,
                ErrorV,
            >(e@));
            assert(scan_spec(lv, path@, marker@) == Err::<OutcomeV, ErrorV>(e@));
        }
        return Err(e);
    }
    proof {
        assert(loc_indices_resolved(stmtsv, t2));
    }
    let out = Outcome::Found(f, table);
    proof {
        assert(scan_spec(lv, path@, marker@) == Ok::<OutcomeV, ErrorV>(out@));
    }
    Ok(out)
}

} // verus!
