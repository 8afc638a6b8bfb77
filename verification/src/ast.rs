//! The statement model of an assembly function body: comments, directives,
//! labels and instructions, together with the classifiers that turn one
//! trimmed line of text into exactly one of them.
//!
//! Every classifier has a specification twin over `Seq<char>`; the executable
//! constructors are proved to return exactly what the twin describes.

use vstd::prelude::*;

use crate::chars::digits_val;
use crate::chars::find_char;
use crate::chars::find_from;
use crate::chars::is_usize_numeral;
use crate::chars::parse_usize;
use crate::chars::range_eq;
use crate::chars::scan_token;
use crate::chars::skip_spaces;
use crate::chars::token_end;
use crate::chars::trim;
use crate::chars::trim_spec;

verus! {

/// A file-index to source-path binding, as a `.file` directive states it.
#[derive(Debug)]
pub struct File {
    pub index: usize,
    pub path: String,
}

/// The abstract value of a [`File`].
pub ghost struct FileV {
    pub index: usize,
    pub path: Seq<char>,
}

impl View for File {
    type V = FileV;

    open spec fn view(&self) -> FileV {
        FileV { index: self.index, path: self.path@ }
    }
}

impl File {
    /// An exact copy.
    pub fn dup(&self) -> (r: File)
        ensures
            r@ == self@,
    {
        File { index: self.index, path: self.path.clone() }
    }
}

/// A source location, as a `.loc` directive states it; trailing tokens are
/// kept verbatim as `flags`.
#[derive(Debug)]
pub struct Loc {
    pub file_index: usize,
    pub line: usize,
    pub column: usize,
    pub flags: Option<String>,
}

/// The abstract value of a [`Loc`].
pub ghost struct LocV {
    pub file_index: usize,
    pub line: usize,
    pub column: usize,
    pub flags: Option<Seq<char>>,
}

impl View for Loc {
    type V = LocV;

    open spec fn view(&self) -> LocV {
        LocV {
            file_index: self.file_index,
            line: self.line,
            column: self.column,
            flags: match self.flags {
                Some(f) => Some(f@),
                None => None,
            },
        }
    }
}

impl Loc {
    /// An exact copy.
    pub fn dup(&self) -> (r: Loc)
        ensures
            r@ == self@,
    {
        Loc {
            file_index: self.file_index,
            line: self.line,
            column: self.column,
            flags: match &self.flags {
                Some(f) => Some(f.clone()),
                None => None,
            },
        }
    }
}

/// The abstract value of an optional location.
pub open spec fn view_opt_loc(o: Option<Loc>) -> Option<LocV> {
    match o {
        Some(l) => Some(l@),
        None => None,
    }
}

/// The abstract value of an optional file binding.
pub open spec fn view_opt_file(o: Option<File>) -> Option<FileV> {
    match o {
        Some(f) => Some(f@),
        None => None,
    }
}

/// An exact copy of an optional location.
pub fn dup_opt_loc(o: &Option<Loc>) -> (r: Option<Loc>)
    ensures
        view_opt_loc(r) == view_opt_loc(*o),
{
    match o {
        Some(l) => Some(l.dup()),
        None => None,
    }
}

/// An inline comment.
#[derive(Debug)]
pub struct Comment {
    pub text: String,
}

/// A label: a symbol identifier plus the location context in force when the
/// label line was read.
#[derive(Debug)]
pub struct Label {
    pub id: String,
    pub loc: Option<Loc>,
}

/// The abstract value of a [`Label`].
pub ghost struct LabelV {
    pub id: Seq<char>,
    pub loc: Option<LocV>,
}

impl View for Label {
    type V = LabelV;

    open spec fn view(&self) -> LabelV {
        LabelV { id: self.id@, loc: view_opt_loc(self.loc) }
    }
}

/// An instruction: its raw mnemonic and operand text plus the location
/// context in force when the line was read.
#[derive(Debug)]
pub struct Instruction {
    pub text: String,
    pub loc: Option<Loc>,
}

/// The abstract value of an [`Instruction`].
pub ghost struct InstructionV {
    pub text: Seq<char>,
    pub loc: Option<LocV>,
}

impl View for Instruction {
    type V = InstructionV;

    open spec fn view(&self) -> InstructionV {
        InstructionV { text: self.text@, loc: view_opt_loc(self.loc) }
    }
}

/// An assembler directive: a file binding, a location binding, or any other
/// token that begins with the directive marker, kept as raw text.
#[derive(Debug)]
pub enum Directive {
    File(File),
    Loc(Loc),
    Other(String),
}

/// The abstract value of a [`Directive`].
pub ghost enum DirectiveV {
    File(FileV),
    Loc(LocV),
    Other(Seq<char>),
}

impl View for Directive {
    type V = DirectiveV;

    open spec fn view(&self) -> DirectiveV {
        match self {
            Directive::File(f) => DirectiveV::File(f@),
            Directive::Loc(l) => DirectiveV::Loc(l@),
            Directive::Other(s) => DirectiveV::Other(s@),
        }
    }
}

/// One classified line of a function body; a line with an inline comment
/// contributes a `Comment` followed by one other statement.
#[derive(Debug)]
pub enum Statement {
    Comment(Comment),
    Directive(Directive),
    Label(Label),
    Instruction(Instruction),
}

/// The abstract value of a [`Statement`].
pub ghost enum StatementV {
    Comment(Seq<char>),
    Directive(DirectiveV),
    Label(LabelV),
    Instruction(InstructionV),
}

impl View for Statement {
    type V = StatementV;

    open spec fn view(&self) -> StatementV {
        match self {
            Statement::Comment(c) => StatementV::Comment(c.text@),
            Statement::Directive(d) => StatementV::Directive(d@),
            Statement::Label(l) => StatementV::Label(l@),
            Statement::Instruction(i) => StatementV::Instruction(i@),
        }
    }
}

/// A reconstructed function: its demangled identifier, its owning file and
/// primary location once resolved, and its body statements in line order.
#[derive(Debug)]
pub struct Function {
    pub id: String,
    pub file: Option<File>,
    pub loc: Option<Loc>,
    pub statements: Vec<Statement>,
}

/// The abstract value of a [`Function`].
pub ghost struct FunctionV {
    pub id: Seq<char>,
    pub file: Option<FileV>,
    pub loc: Option<LocV>,
    pub statements: Seq<StatementV>,
}

impl View for Function {
    type V = FunctionV;

    open spec fn view(&self) -> FunctionV {
        FunctionV {
            id: self.id@,
            file: view_opt_file(self.file),
            loc: view_opt_loc(self.loc),
            statements: self.statements@.map_values(|s: Statement| s@),
        }
    }
}

/// The comment delimiter splits a line there; the text before it is the node
/// text, classified as directive, label or instruction.
pub open spec fn node_text(t: Seq<char>) -> Seq<char> {
    match find_from(t, ';', 0) {
        Some(k) => t.subrange(0, k),
        None => t,
    }
}

/// The text of a line from its comment delimiter on; empty when it has none.
pub open spec fn comment_raw(t: Seq<char>) -> Seq<char> {
    match find_from(t, ';', 0) {
        Some(k) => t.subrange(k, t.len() as int),
        None => Seq::empty(),
    }
}

/// The comment carried by a comment part: the text after the delimiter,
/// trimmed, provided it is non-empty.
pub open spec fn comment_of(s: Seq<char>) -> Option<Seq<char>> {
    if s.len() > 0 && s[0] == ';' && trim_spec(s.drop_first()).len() > 0 {
        Some(trim_spec(s.drop_first()))
    } else {
        None
    }
}

/// The trimmed remainder of `s` once quotes are stripped, when `s` trims to a
/// double-quoted string.
pub open spec fn quoted_of(s: Seq<char>) -> Option<Seq<char>> {
    let t = trim_spec(s);
    if t.len() >= 2 && t[0] == '"' && t.last() == '"' {
        Some(t.subrange(1, t.len() - 1))
    } else {
        None
    }
}

/// The file binding stated by `s`, when `s` is a well-formed file directive:
/// the directive name, a numeral index, then a quoted path.
pub open spec fn file_directive_of(s: Seq<char>) -> Option<FileV> {
    let a0 = skip_spaces(s, 0);
    let b0 = token_end(s, a0);
    if s.subrange(a0, b0) != ".file"@ {
        None
    } else {
        let a1 = skip_spaces(s, b0);
        let b1 = token_end(s, a1);
        let tok1 = s.subrange(a1, b1);
        if is_usize_numeral(tok1) && quoted_of(s.subrange(b1, s.len() as int)) is Some {
            Some(
                (FileV {
                    index: digits_val(tok1) as usize,
                    path: quoted_of(s.subrange(b1, s.len() as int))->Some_0,
                }),
            )
        } else {
            None
        }
    }
}

/// The location stated by `s`, when `s` is a well-formed location directive:
/// the directive name, three numerals, then optional flag tokens kept
/// verbatim.
pub open spec fn loc_directive_of(s: Seq<char>) -> Option<LocV> {
    let a0 = skip_spaces(s, 0);
    let b0 = token_end(s, a0);
    if s.subrange(a0, b0) != ".loc"@ {
        None
    } else {
        let a1 = skip_spaces(s, b0);
        let b1 = token_end(s, a1);
        let a2 = skip_spaces(s, b1);
        let b2 = token_end(s, a2);
        let a3 = skip_spaces(s, b2);
        let b3 = token_end(s, a3);
        let tok1 = s.subrange(a1, b1);
        let tok2 = s.subrange(a2, b2);
        let tok3 = s.subrange(a3, b3);
        if is_usize_numeral(tok1) && is_usize_numeral(tok2) && is_usize_numeral(tok3) {
            let rest = trim_spec(s.subrange(b3, s.len() as int));
            Some(
                (LocV {
                    file_index: digits_val(tok1) as usize,
                    line: digits_val(tok2) as usize,
                    column: digits_val(tok3) as usize,
                    flags: if rest.len() == 0 {
                        None
                    } else {
                        Some(rest)
                    },
                }),
            )
        } else {
            None
        }
    }
}

/// Whether the first token of `s` begins with the directive marker.
pub open spec fn is_directive_text(s: Seq<char>) -> bool {
    let a0 = skip_spaces(s, 0);
    a0 < token_end(s, a0) && s[a0] == '.'
}

/// The directive stated by `s`: a file form, a location form, or, for any
/// other first token beginning with the marker, the trimmed raw text.
pub open spec fn directive_of(s: Seq<char>) -> Option<DirectiveV> {
    if !is_directive_text(s) {
        None
    } else if file_directive_of(s) is Some {
        Some(DirectiveV::File(file_directive_of(s)->Some_0))
    } else if loc_directive_of(s) is Some {
        Some(DirectiveV::Loc(loc_directive_of(s)->Some_0))
    } else {
        Some(DirectiveV::Other(trim_spec(s)))
    }
}

/// The identifier of `s` read as a label: everything before the final colon
/// of its trimmed text.
pub open spec fn label_id_of(s: Seq<char>) -> Option<Seq<char>> {
    let t = trim_spec(s);
    if t.len() > 0 && t.last() == ':' {
        Some(t.drop_last())
    } else {
        None
    }
}

/// The text of `s` read as an instruction: its trimmed text, provided it is
/// non-empty.
pub open spec fn instr_text_of(s: Seq<char>) -> Option<Seq<char>> {
    let t = trim_spec(s);
    if t.len() > 0 {
        Some(t)
    } else {
        None
    }
}

impl Comment {
    /// Classifies the comment part of a line, which begins at the delimiter
    /// when the line has one.
    pub fn new(s: &str) -> (r: Option<Comment>)
        ensures
            match r {
                Some(c) => comment_of(s@) == Some(c.text@),
                None => comment_of(s@) is None,
            },
    {
        let n = s.unicode_len();
        if n == 0 || s.get_char(0) != ';' {
            return None;
        }
        let body = s.substring_char(1, n);
        proof {
            assert(body@ =~= s@.drop_first());
        }
        let t = trim(body);
        if t.as_str().unicode_len() == 0 {
            None
        } else {
            Some(Comment { text: t })
        }
    }
}

impl Label {
    /// Classifies `s` as a label and attaches the current location context.
    pub fn new(s: &str, loc: Option<Loc>) -> (r: Option<Label>)
        ensures
            match r {
                Some(lb) => label_id_of(s@) == Some(lb.id@) && view_opt_loc(lb.loc) == view_opt_loc(
                    loc,
                ),
                None => label_id_of(s@) is None,
            },
    {
        let t = trim(s);
        let n = t.as_str().unicode_len();
        if n == 0 || t.as_str().get_char(n - 1) != ':' {
            return None;
        }
        let id = t.as_str().substring_char(0, n - 1).to_owned();
        proof {
            assert(id@ =~= trim_spec(s@).drop_last());
        }
        Some(Label { id, loc })
    }
}

impl Instruction {
    /// Classifies `s` as an instruction and attaches the current location
    /// context.
    pub fn new(s: &str, loc: Option<Loc>) -> (r: Option<Instruction>)
        ensures
            match r {
                Some(i) => instr_text_of(s@) == Some(i.text@) && view_opt_loc(i.loc)
                    == view_opt_loc(loc),
                None => instr_text_of(s@) is None,
            },
    {
        let t = trim(s);
        if t.as_str().unicode_len() == 0 {
            return None;
        }
        Some(Instruction { text: t, loc })
    }
}

impl File {
    /// Classifies `s` as a file directive alone, as the trailer scan does for
    /// lines outside any function body.
    pub fn new(s: &str) -> (r: Option<File>)
        ensures
            match r {
                Some(f) => file_directive_of(s@) == Some(f@),
                None => file_directive_of(s@) is None,
            },
    {
        let n = s.unicode_len();
        let (a0, b0) = scan_token(s, 0);
        if !range_eq(s, a0, b0, ".file") {
            return None;
        }
        let (a1, b1) = scan_token(s, b0);
        let index = match parse_usize(s, a1, b1) {
            Some(v) => v,
            None => {
                return None;
            },
        };
        let rest = trim(s.substring_char(b1, n));
        proof {
            assert(rest@ == trim_spec(s@.subrange(b1 as int, s@.len() as int)));
        }
        let m = rest.as_str().unicode_len();
        if m < 2 || rest.as_str().get_char(0) != '"' || rest.as_str().get_char(m - 1) != '"' {
            return None;
        }
        let path = rest.as_str().substring_char(1, m - 1).to_owned();
        Some(File { index, path })
    }
}

impl Directive {
    /// Classifies the node text of a line as a directive, trying the file
    /// form, then the location form, then the catch-all.
    pub fn new(s: &str) -> (r: Option<Directive>)
        ensures
            match r {
                Some(d) => directive_of(s@) == Some(d@),
                None => directive_of(s@) is None,
            },
    {
        let n = s.unicode_len();
        let (a0, b0) = scan_token(s, 0);
        if a0 == b0 || s.get_char(a0) != '.' {
            return None;
        }
        if let Some(f) = File::new(s) {
            return Some(Directive::File(f));
        }
        if range_eq(s, a0, b0, ".loc") {
            let (a1, b1) = scan_token(s, b0);
            let (a2, b2) = scan_token(s, b1);
            let (a3, b3) = scan_token(s, b2);
            let i1 = parse_usize(s, a1, b1);
            let i2 = parse_usize(s, a2, b2);
            let i3 = parse_usize(s, a3, b3);
            if let (Some(file_index), Some(line), Some(column)) = (i1, i2, i3) {
                let rest = trim(s.substring_char(b3, n));
                proof {
                    assert(rest@ == trim_spec(s@.subrange(b3 as int, s@.len() as int)));
                }
                let flags = if rest.as_str().unicode_len() == 0 {
                    None
                } else {
                    Some(rest)
                };
                return Some(Directive::Loc(Loc { file_index, line, column, flags }));
            }
        }
        Some(Directive::Other(trim(s)))
    }
}

} // verus!
