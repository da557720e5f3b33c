//! The nesting depth of macro calls in a source file.
//!
//! Macro calls are counted where they are written and inside the token trees
//! they are given; the standard library's formatting, assertion and compiler
//! helper macros are not counted.

use vstd::prelude::*;
use vstd::string::*;
use crate::text::{find, to_chars, find_chars};
use crate::traits::contains_string;

verus! {

/// A token tree as the scanner reads it.
pub enum Token {
    Ident(String),
    Punct(char),
    /// A delimited group: its tokens, and the text the token stream prints as.
    Group { text: String, stream: Vec<Token> },
    Literal(String),
}

/// What a warning is about.
pub enum WarningType {
    ProcMacro(String),
    MacroRepetition(String),
    StringLiteralMacro,
}

/// What a warning is about, in the form the rules speak of.
pub ghost enum WarningKind {
    ProcMacro(Seq<char>),
    MacroRepetition(Seq<char>),
    StringLiteralMacro,
}

impl View for WarningType {
    type V = WarningKind;

    open spec fn view(&self) -> WarningKind {
        match self {
            WarningType::ProcMacro(s) => WarningKind::ProcMacro(s@),
            WarningType::MacroRepetition(s) => WarningKind::MacroRepetition(s@),
            WarningType::StringLiteralMacro => WarningKind::StringLiteralMacro,
        }
    }
}

/// The attribute names taken for procedural macros that expand deeply.
pub open spec fn known_proc_macro_names() -> Seq<Seq<char>> {
    seq![
        "derive"@,
        "proc_macro"@,
        "proc_macro_derive"@,
        "anchor_lang"@,
        "serde"@,
    ]
}

/// The macros of the standard library and the compiler that are not counted.
pub open spec fn ignored_macro_names() -> Seq<Seq<char>> {
    seq![
        "format_args"@,
        "print"@,
        "println"@,
        "eprint"@,
        "eprintln"@,
        "format"@,
        "write"@,
        "writeln"@,
        "assert"@,
        "assert_eq"@,
        "assert_ne"@,
        "debug_assert"@,
        "debug_assert_eq"@,
        "debug_assert_ne"@,
        "panic"@,
        "unreachable"@,
        "unimplemented"@,
        "todo"@,
        "compile_error"@,
        "concat"@,
        "concat_idents"@,
        "env"@,
        "option_env"@,
        "file"@,
        "line"@,
        "column"@,
        "module_path"@,
        "stringify"@,
        "include"@,
        "include_str"@,
        "include_bytes"@,
        "cfg"@,
        "matches"@,
        "dbg"@,
        "try"@,
        "vec"@,
    ]
}

/// Where scanning stands.
pub ghost struct ScanView {
    pub depth: nat,
    pub max: nat,
    pub current: Option<Seq<char>>,
    pub warnings: Seq<(WarningKind, Seq<char>)>,
}

/// One more level, saturating at the largest `usize`.
pub open spec fn deeper(d: nat) -> nat {
    if d < usize::MAX {
        d + 1
    } else {
        d
    }
}

/// One level less, not below 0.
pub open spec fn shallower(d: nat) -> nat {
    if d > 0 {
        (d - 1) as nat
    } else {
        0
    }
}

/// The state on entering a macro call named `name`: it becomes the current
/// macro and, unless it is ignored, the depth grows and the maximum follows.
pub open spec fn enter(st: ScanView, name: Seq<char>, ignored: bool) -> ScanView {
    let d = deeper(st.depth);
    if ignored {
        ScanView { current: Some(name), ..st }
    } else {
        ScanView {
        depth: d,
        max: if d > st.max {
            d
        } else {
            st.max
        },
            current: Some(name),
            warnings: st.warnings,
        }
    }
}

/// The state on leaving a macro call.
pub open spec fn leave(st: ScanView, ignored: bool) -> ScanView {
    if ignored {
        st
    } else {
        ScanView { depth: shallower(st.depth), ..st }
    }
}

/// The message of a repetition warning for the macro `name`.
pub open spec fn repetition_message(name: Seq<char>) -> Seq<char> {
    "Warning: Macro '"@ + name + "!' contains repetition pattern - actual depth may be higher"@
}

/// The message of the warning for a `!` in a literal.
pub open spec fn literal_message() -> Seq<char> {
    "Note: Found '!' in string literal - might be a hidden macro call"@
}

/// The message of a warning for a known procedural macro attribute.
pub open spec fn proc_macro_message(path: Seq<char>) -> Seq<char> {
    "Warning: Found proc-macro attribute '"@ + path
        + "' - actual macro depth may be significantly higher"@
}

/// The state after reading `toks` from position `i`. An identifier followed
/// by `!` is a macro call: the token after the `!` is its body, read when it
/// is a group; a body printed with `$(` and `)*` in it, of a counted macro,
/// gives a warning. A group is read inside; a literal with a `!` in it gives
/// a note.
#[verifier::rlimit(50)]
#[verifier::opaque]
pub open spec fn scan(st: ScanView, ign: Seq<Seq<char>>, toks: Seq<Token>, i: int) -> ScanView
    decreases toks, toks.len() - i,
{
    if i < 0 || i >= toks.len() {
        st
    } else {
        match toks[i] {
            Token::Ident(id) => {
                if i + 1 < toks.len() && toks[i + 1] == Token::Punct('!') {
                    let ig = ign.contains(id@);
                    let s1 = enter(st, id@, ig);
                    if i + 2 < toks.len() {
                        match toks[i + 2] {
                            Token::Group { text, stream } => {
                                proof {
                                    vstd::seq::axiom_seq_index_decreases(toks, i + 2);
                                    assert(decreases_to!(toks[i + 2] => stream));
                                    vstd::std_specs::vec::axiom_vec_decreases_to_view(stream);
                                }
                                let s2 = if !ig && find(text@, "$("@) is Some && find(
                                    text@,
                                    ")*"@,
                                ) is Some {
                                    ScanView {
                                        warnings: s1.warnings.push(
                                            (
                                                WarningKind::MacroRepetition(id@),
                                                repetition_message(id@),
                                            ),
                                        ),
                                        ..s1
                                    }
                                } else {
                                    s1
                                };
                                scan(leave(scan(s2, ign, stream@, 0), ig), ign, toks, i + 3)
                            },
                            _ => scan(leave(s1, ig), ign, toks, i + 3),
                        }
                    } else {
                        scan(leave(s1, ig), ign, toks, i + 2)
                    }
                } else {
                    scan(st, ign, toks, i + 1)
                }
            },
            Token::Group { text, stream } => {
                proof {
                    vstd::seq::axiom_seq_index_decreases(toks, i);
                    assert(decreases_to!(toks[i] => stream));
                    vstd::std_specs::vec::axiom_vec_decreases_to_view(stream);
                }
                scan(scan(st, ign, stream@, 0), ign, toks, i + 1)
            },
            Token::Literal(l) => {
                let s1 = if find(l@, seq!['!']) is Some {
                    ScanView {
                        warnings: st.warnings.push(
                            (WarningKind::StringLiteralMacro, literal_message()),
                        ),
                        ..st
                    }
                } else {
                    st
                };
                scan(s1, ign, toks, i + 1)
            },
            Token::Punct(_) => scan(st, ign, toks, i + 1),
        }
    }
}


/// The state after a macro invocation of the syntax tree, named by the last
/// segment of its path where it has one, with the tokens `toks`: entered
/// (an unnamed one counts), read, and left.
pub open spec fn visit_macro_state(
    st: ScanView,
    ign: Seq<Seq<char>>,
    name: Option<Seq<char>>,
    toks: Seq<Token>,
) -> ScanView {
    let ig = match name {
        Some(n) => ign.contains(n),
        None => false,
    };
    let s0 = match name {
        Some(n) => enter(st, n, ig),
        None => ScanView { current: st.current, ..enter(st, Seq::empty(), false) },
    };
    leave(scan(s0, ign, toks, 0), ig)
}

/// The state after an attribute: where its arguments parse as a list whose
/// path is a known procedural macro, a warning and a depth of at least 3;
/// then its arguments are read, where they parse as tokens.
pub open spec fn attribute_state(
    st: ScanView,
    known: Seq<Seq<char>>,
    ign: Seq<Seq<char>>,
    list_path: Option<Seq<char>>,
    args: Option<Seq<Token>>,
) -> ScanView {
    let s1 = match list_path {
        Some(p) => if known.contains(p) {
            ScanView {
                max: if st.max > 3 {
                    st.max
                } else {
                    3
                },
                warnings: st.warnings.push((WarningKind::ProcMacro(p), proc_macro_message(p))),
                ..st
            }
        } else {
            st
        },
        None => st,
    };
    match args {
        Some(ts) => scan(s1, ign, ts, 0),
        None => s1,
    }
}

/// Counts the nesting of macro calls while a file's syntax tree is walked.
pub struct MacroDepthVisitor {
    pub current_depth: usize,
    pub max_depth: usize,
    pub current_macro: Option<String>,
    pub known_proc_macros: Vec<String>,
    pub ignored_macros: Vec<String>,
    pub warnings: Vec<(WarningType, String)>,
}

impl MacroDepthVisitor {
    /// Where the visitor stands.
    pub open spec fn state(&self) -> ScanView {
        ScanView {
            depth: self.current_depth as nat,
            max: self.max_depth as nat,
            current: match self.current_macro {
                Some(s) => Some(s@),
                None => None,
            },
            warnings: self.warnings@.map_values(|w: (WarningType, String)| (w.0@, w.1@)),
        }
    }

    /// A visitor at depth 0 with the standard lists of known procedural
    /// macros and of ignored macros.
    pub fn new() -> (r: Self)
        ensures
            r.state() == (ScanView {
                depth: 0,
                max: 0,
                current: None,
                warnings: Seq::empty(),
            }),
            r.known_proc_macros.deep_view() == known_proc_macro_names(),
            r.ignored_macros.deep_view() == ignored_macro_names(),
    {
        let mut known_proc_macros: Vec<String> = Vec::new();
        known_proc_macros.push(String::from_str("derive"));
        known_proc_macros.push(String::from_str("proc_macro"));
        known_proc_macros.push(String::from_str("proc_macro_derive"));
        known_proc_macros.push(String::from_str("anchor_lang"));
        known_proc_macros.push(String::from_str("serde"));
        let mut ignored_macros: Vec<String> = Vec::new();
        ignored_macros.push(String::from_str("format_args"));
        ignored_macros.push(String::from_str("print"));
        ignored_macros.push(String::from_str("println"));
        ignored_macros.push(String::from_str("eprint"));
        ignored_macros.push(String::from_str("eprintln"));
        ignored_macros.push(String::from_str("format"));
        ignored_macros.push(String::from_str("write"));
        ignored_macros.push(String::from_str("writeln"));
        ignored_macros.push(String::from_str("assert"));
        ignored_macros.push(String::from_str("assert_eq"));
        ignored_macros.push(String::from_str("assert_ne"));
        ignored_macros.push(String::from_str("debug_assert"));
        ignored_macros.push(String::from_str("debug_assert_eq"));
        ignored_macros.push(String::from_str("debug_assert_ne"));
        ignored_macros.push(String::from_str("panic"));
        ignored_macros.push(String::from_str("unreachable"));
        ignored_macros.push(String::from_str("unimplemented"));
        ignored_macros.push(String::from_str("todo"));
        ignored_macros.push(String::from_str("compile_error"));
        ignored_macros.push(String::from_str("concat"));
        ignored_macros.push(String::from_str("concat_idents"));
        ignored_macros.push(String::from_str("env"));
        ignored_macros.push(String::from_str("option_env"));
        ignored_macros.push(String::from_str("file"));
        ignored_macros.push(String::from_str("line"));
        ignored_macros.push(String::from_str("column"));
        ignored_macros.push(String::from_str("module_path"));
        ignored_macros.push(String::from_str("stringify"));
        ignored_macros.push(String::from_str("include"));
        ignored_macros.push(String::from_str("include_str"));
        ignored_macros.push(String::from_str("include_bytes"));
        ignored_macros.push(String::from_str("cfg"));
        ignored_macros.push(String::from_str("matches"));
        ignored_macros.push(String::from_str("dbg"));
        ignored_macros.push(String::from_str("try"));
        ignored_macros.push(String::from_str("vec"));
        assert(known_proc_macros.deep_view() =~= known_proc_macro_names());
        assert(ignored_macros.deep_view() =~= ignored_macro_names());
        let r = MacroDepthVisitor {
            current_depth: 0,
            max_depth: 0,
            current_macro: None,
            known_proc_macros,
            ignored_macros,
            warnings: Vec::new(),
        };
        assert(r.state().warnings =~= Seq::<(WarningKind, Seq<char>)>::empty());
        r
    }
}


/// Whether `p` occurs in `s`, as [`find`] states.
fn contains_text(s: &String, p: &str) -> (r: bool)
    ensures
        r == (find(s@, p@) is Some),
{
    let sc = to_chars(s.as_str());
    let pc = to_chars(p);
    find_chars(&sc, &pc).is_some()
}

impl MacroDepthVisitor {
    /// Enters a macro call named `name`, as [`enter`] states.
    fn enter_macro(&mut self, name: &String, ignored: bool)
        ensures
            final(self).state() == enter(old(self).state(), name@, ignored),
            final(self).ignored_macros == old(self).ignored_macros,
            final(self).known_proc_macros == old(self).known_proc_macros,
    {
        self.current_macro = Some(name.clone());
        if !ignored {
            if self.current_depth < usize::MAX {
                self.current_depth = self.current_depth + 1;
            }
            if self.current_depth > self.max_depth {
                self.max_depth = self.current_depth;
            }
        }
    }

    /// Leaves a macro call, as [`leave`] states.
    fn leave_macro(&mut self, ignored: bool)
        ensures
            final(self).state() == leave(old(self).state(), ignored),
            final(self).ignored_macros == old(self).ignored_macros,
            final(self).known_proc_macros == old(self).known_proc_macros,
    {
        if !ignored && self.current_depth > 0 {
            self.current_depth = self.current_depth - 1;
        }
    }

    /// Adds a warning.
    fn warn(&mut self, kind: WarningType, message: String)
        ensures
            final(self).state() == (ScanView {
                warnings: old(self).state().warnings.push((kind@, message@)),
                ..old(self).state()
            }),
            final(self).ignored_macros == old(self).ignored_macros,
            final(self).known_proc_macros == old(self).known_proc_macros,
    {
        let ghost before = self.state();
        let ghost k = kind@;
        let ghost m = message@;
        self.warnings.push((kind, message));
        assert(self.state().warnings =~= before.warnings.push((k, m)));
    }

    /// Reads a token stream, as [`scan`] states, with this visitor's list of
    /// ignored macros.
    pub fn scan_token_stream(&mut self, tokens: &Vec<Token>)
        ensures
            final(self).state() == scan(
                old(self).state(),
                old(self).ignored_macros.deep_view(),
                tokens@,
                0,
            ),
            final(self).ignored_macros == old(self).ignored_macros,
            final(self).known_proc_macros == old(self).known_proc_macros,
        decreases tokens, 2int,
    {
        let ghost ign = self.ignored_macros.deep_view();
        let ghost goal = scan(self.state(), ign, tokens@, 0);
        let n = tokens.len();
        let mut i: usize = 0;
        while i < n
            invariant
                n == tokens.len(),
                i <= n,
                ign == self.ignored_macros.deep_view(),
                self.ignored_macros == old(self).ignored_macros,
                self.known_proc_macros == old(self).known_proc_macros,
                scan(self.state(), ign, tokens@, i as int) == goal,
            decreases n - i,
        {
            i = self.scan_one(tokens, i);
        }
        proof {
            reveal(scan);
        }
    }

    /// Reads the token at `i` and what belongs to it; the position after it
    /// is returned.
    #[verifier::rlimit(50)]
    fn scan_one(&mut self, tokens: &Vec<Token>, i: usize) -> (r: usize)
        requires
            i < tokens.len(),
        ensures
            i < r <= tokens.len(),
            scan(old(self).state(), old(self).ignored_macros.deep_view(), tokens@, i as int)
                == scan(final(self).state(), old(self).ignored_macros.deep_view(), tokens@, r as int),
            final(self).ignored_macros == old(self).ignored_macros,
            final(self).known_proc_macros == old(self).known_proc_macros,
        decreases tokens, 1int,
    {
        proof {
            vstd::std_specs::vec::axiom_vec_index_decreases(*tokens, i as int);
            reveal(scan);
        }
        let n = tokens.len();
        match &tokens[i] {
            Token::Ident(id) => {
                let is_macro = i + 1 < n && match &tokens[i + 1] {
                    Token::Punct(c) => *c == '!',
                    _ => false,
                };
                if is_macro {
                    self.scan_macro_call(tokens, i, id)
                } else {
                    i + 1
                }
            },
            Token::Group { text, stream } => {
                proof {
                    assert(decreases_to!(tokens@[i as int] => *stream));
                }
                self.scan_token_stream(stream);
                i + 1
            },
            Token::Literal(l) => {
                let bang = to_chars("!");
                proof {
                    reveal_strlit("!");
                    assert(bang@ =~= seq!['!']);
                }
                if find_chars(&to_chars(l.as_str()), &bang).is_some() {
                    self.warn(
                        WarningType::StringLiteralMacro,
                        String::from_str(
                            "Note: Found '!' in string literal - might be a hidden macro call",
                        ),
                    );
                }
                i + 1
            },
            Token::Punct(_) => i + 1,
        }
    }

    /// Reads the macro call `id!` at `i`, and its body where a group
    /// follows the `!`; the position after the call is returned.
    #[verifier::rlimit(50)]
    fn scan_macro_call(&mut self, tokens: &Vec<Token>, i: usize, id: &String) -> (r: usize)
        requires
            i + 1 < tokens.len(),
            tokens@[i as int] == Token::Ident(*id),
            tokens@[i + 1] == Token::Punct('!'),
        ensures
            i < r <= tokens.len(),
            scan(old(self).state(), old(self).ignored_macros.deep_view(), tokens@, i as int)
                == scan(final(self).state(), old(self).ignored_macros.deep_view(), tokens@, r as int),
            final(self).ignored_macros == old(self).ignored_macros,
            final(self).known_proc_macros == old(self).known_proc_macros,
        decreases tokens, 0int,
    {
        proof {
            reveal(scan);
        }
        let n = tokens.len();
        let ignored = contains_string(&self.ignored_macros, id);
        self.enter_macro(id, ignored);
        if i + 2 < n {
            proof {
                vstd::std_specs::vec::axiom_vec_index_decreases(*tokens, i + 2);
            }
            match &tokens[i + 2] {
                Token::Group { text, stream } => {
                    if !ignored && contains_text(text, "$(") && contains_text(text, ")*") {
                        let message = String::from_str("Warning: Macro '").concat(id.as_str()).concat(
                            "!' contains repetition pattern - actual depth may be higher",
                        );
                        self.warn(WarningType::MacroRepetition(id.clone()), message);
                    }
                    proof {
                        assert(decreases_to!(tokens@[i + 2] => *stream));
                    }
                    self.scan_token_stream(stream);
                },
                _ => {},
            }
            self.leave_macro(ignored);
            if n - i >= 3 {
                i + 3
            } else {
                n
            }
        } else {
            self.leave_macro(ignored);
            n
        }
    }
}


impl MacroDepthVisitor {
    /// Visits a macro invocation of the syntax tree, as
    /// [`visit_macro_state`] states.
    pub fn visit_macro(&mut self, name: Option<String>, tokens: &Vec<Token>)
        ensures
            final(self).state() == visit_macro_state(
                old(self).state(),
                old(self).ignored_macros.deep_view(),
                match name {
                    Some(n) => Some(n@),
                    None => None,
                },
                tokens@,
            ),
            final(self).ignored_macros == old(self).ignored_macros,
            final(self).known_proc_macros == old(self).known_proc_macros,
    {
        let ignored = match &name {
            Some(n) => contains_string(&self.ignored_macros, n),
            None => false,
        };
        match &name {
            Some(n) => {
                self.enter_macro(n, ignored);
            },
            None => {
                if self.current_depth < usize::MAX {
                    self.current_depth = self.current_depth + 1;
                }
                if self.current_depth > self.max_depth {
                    self.max_depth = self.current_depth;
                }
            },
        }
        self.scan_token_stream(tokens);
        self.leave_macro(ignored);
    }

    /// Visits an attribute, as [`attribute_state`] states: `list_path` is
    /// the path of its arguments where they parse as a list, and `args` its
    /// arguments where they parse as tokens.
    pub fn scan_attribute(&mut self, list_path: Option<String>, args: Option<Vec<Token>>)
        ensures
            final(self).state() == attribute_state(
                old(self).state(),
                old(self).known_proc_macros.deep_view(),
                old(self).ignored_macros.deep_view(),
                match list_path {
                    Some(p) => Some(p@),
                    None => None,
                },
                match args {
                    Some(ts) => Some(ts@),
                    None => None,
                },
            ),
            final(self).ignored_macros == old(self).ignored_macros,
            final(self).known_proc_macros == old(self).known_proc_macros,
    {
        match &list_path {
            Some(p) => {
                if contains_string(&self.known_proc_macros, p) {
                    let message = String::from_str("Warning: Found proc-macro attribute '").concat(
                        p.as_str(),
                    ).concat("' - actual macro depth may be significantly higher");
                    self.warn(WarningType::ProcMacro(p.clone()), message);
                    if self.max_depth < 3 {
                        self.max_depth = 3;
                    }
                }
            },
            None => {},
        }
        match &args {
            Some(ts) => {
                self.scan_token_stream(ts);
            },
            None => {},
        }
    }
}

} // verus!
