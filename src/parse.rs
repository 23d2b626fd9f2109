use vstd::prelude::*;

use crate::pattern::{regex_captures, regex_compiles, Pattern};

verus! {

/// An instruction as the parser reads it: its mnemonic and textual operands.
pub struct UnparsedInstruction {
    pub name: String,
    pub params: Vec<String>,
}

/// One entry of a parsed function body.
pub enum ParseEntry {
    ParseInstruction(UnparsedInstruction),
    ParseLabel(String),
}

/// Unicode's `White_Space` characters, as `char::is_whitespace` documents them.
pub open spec fn is_white(c: char) -> bool {
    ('\u{9}' <= c && c <= '\u{d}') || c == ' ' || c == '\u{85}' || c == '\u{a0}' || c == '\u{1680}'
        || ('\u{2000}' <= c && c <= '\u{200a}') || c == '\u{2028}' || c == '\u{2029}' || c == '\u{202f}'
        || c == '\u{205f}' || c == '\u{3000}'
}

pub fn is_white_char(c: char) -> (r: bool)
    ensures
        r == is_white(c),
{
    ('\u{9}' <= c && c <= '\u{d}') || c == ' ' || c == '\u{85}' || c == '\u{a0}' || c == '\u{1680}'
        || ('\u{2000}' <= c && c <= '\u{200a}') || c == '\u{2028}' || c == '\u{2029}' || c == '\u{202f}'
        || c == '\u{205f}' || c == '\u{3000}'
}

/// The operands read from `s[i..]`, given those already complete, the one
/// being read, and whether a string literal is open. Outside a literal commas
/// separate operands and whitespace is dropped; a double quote opens or closes
/// a literal and is dropped; inside a literal a backslash is kept together with
/// the character after it, and a backslash that ends the text inside an
/// open literal is kept alone. A last operand that is empty is not kept.
pub open spec fn split_from(s: Seq<char>, i: int, args: Seq<Seq<char>>, cur: Seq<char>, inside: bool) -> Seq<Seq<char>>
    decreases s.len() - i,
{
    if i >= s.len() {
        if cur.len() != 0 {
            args.push(cur)
        } else {
            args
        }
    } else {
        let c = s[i];
        if c == ',' && !inside {
            split_from(s, i + 1, args.push(cur), Seq::empty(), inside)
        } else if is_white(c) && !inside {
            split_from(s, i + 1, args, cur, inside)
        } else if c == '"' {
            split_from(s, i + 1, args, cur, !inside)
        } else if inside && c == '\\' && i + 1 < s.len() {
            split_from(s, i + 2, args, cur.push(c).push(s[i + 1]), inside)
        } else {
            split_from(s, i + 1, args, cur.push(c), inside)
        }
    }
}

pub open spec fn split_operands(s: Seq<char>) -> Seq<Seq<char>> {
    split_from(s, 0, Seq::empty(), Seq::empty(), false)
}

/// Relies on `String::push`: appends one character.
#[verifier::external_body]
fn push_char(s: &mut String, c: char)
    ensures
        final(s)@ == old(s)@.push(c),
{
    s.push(c);
}

/// Splits the operand text of an instruction line into its operands.
pub fn transform_arguments(str: String) -> (r: Vec<String>)
    ensures
        r@.map_values(|a: String| a@) == split_operands(str@),
{
    let n = str.as_str().unicode_len();
    let mut arguments: Vec<String> = Vec::new();
    let mut bob = String::new();
    let mut inside_str = false;
    let mut i: usize = 0;
    assert(arguments@.map_values(|a: String| a@) =~= Seq::<Seq<char>>::empty());
    while i < n
        invariant
            n == str@.len(),
            i <= n,
            split_from(str@, i as int, arguments@.map_values(|a: String| a@), bob@, inside_str)
                == split_operands(str@),
        decreases n - i,
    {
        let c = str.as_str().get_char(i);
        if c == ',' && !inside_str {
            let ghost before = arguments@.map_values(|a: String| a@);
            let done = bob;
            arguments.push(done);
            assert(arguments@.map_values(|a: String| a@) =~= before.push(done@));
            bob = String::new();
            
            i = i + 1;
        } else if is_white_char(c) && !inside_str {
            i = i + 1;
        } else if c == '"' {
            inside_str = !inside_str;
            i = i + 1;
        } else if inside_str && c == '\\' && i + 1 < n {
            push_char(&mut bob, c);
            let d = str.as_str().get_char(i + 1);
            push_char(&mut bob, d);
            i = i + 2;
        } else {
            push_char(&mut bob, c);
            i = i + 1;
        }
    }
    if bob.as_str().unicode_len() != 0 {
        let ghost before = arguments@.map_values(|a: String| a@);
        let last = bob;
        arguments.push(last);
        assert(arguments@.map_values(|a: String| a@) =~= before.push(last@));
    }
    arguments
}

/// The compiled line patterns of the text format.
pub struct ParserConfig {
    pub function_regex: Pattern,
    pub label_regex: Pattern,
    pub register_regex: Pattern,
    pub params_regex: Pattern,
    pub instruction_regex: Pattern,
}

impl ParserConfig {
    /// Compiles the line patterns; `None` exactly when the regex engine
    /// refuses one of them.
    pub fn new() -> (r: Option<ParserConfig>)
        ensures
            r matches Some(c) ==> c.function_regex.source() == "fn\\s+([\\w.#]+)"@
                && c.label_regex.source() == "#([\\w.]+)"@
                && c.register_regex.source() == "registers\\s+(.+)"@
                && c.params_regex.source() == "params\\s+(.+)"@
                && c.instruction_regex.source() == "\\s*(\\w+)\\s*:\\s*(.*)"@,
            r is Some <==> regex_compiles("fn\\s+([\\w.#]+)"@) && regex_compiles("#([\\w.]+)"@)
                && regex_compiles("registers\\s+(.+)"@) && regex_compiles("params\\s+(.+)"@)
                && regex_compiles("\\s*(\\w+)\\s*:\\s*(.*)"@),
    {
        let function_regex = Pattern::compile("fn\\s+([\\w.#]+)")?;
        let label_regex = Pattern::compile("#([\\w.]+)")?;
        let register_regex = Pattern::compile("registers\\s+(.+)")?;
        let params_regex = Pattern::compile("params\\s+(.+)")?;
        let instruction_regex = Pattern::compile("\\s*(\\w+)\\s*:\\s*(.*)")?;
        Some(ParserConfig { function_regex, label_regex, register_regex, params_regex, instruction_regex })
    }
}

/// A function as read from the text: its name, the text of its `registers`
/// and `params` declarations, and its body.
pub struct ParsedFunction {
    pub name: String,
    pub registers: String,
    pub params: String,
    pub instructions: Vec<ParseEntry>,
}

pub enum EntryText {
    Instr(Seq<char>, Seq<Seq<char>>),
    Label(Seq<char>),
}

pub struct FunctionText {
    pub name: Seq<char>,
    pub registers: Seq<char>,
    pub params: Seq<char>,
    pub entries: Seq<EntryText>,
}

pub open spec fn entry_text(e: ParseEntry) -> EntryText {
    match e {
        ParseEntry::ParseInstruction(u) => EntryText::Instr(u.name@, u.params@.map_values(|p: String| p@)),
        ParseEntry::ParseLabel(l) => EntryText::Label(l@),
    }
}

pub open spec fn function_text(f: ParsedFunction) -> FunctionText {
    FunctionText {
        name: f.name@,
        registers: f.registers@,
        params: f.params@,
        entries: f.instructions@.map_values(|e: ParseEntry| entry_text(e)),
    }
}

/// Where the reader stands: between functions, in a body, expecting the
/// `params` line, or expecting `end`.
pub enum ReadState {
    Outside,
    Body(Seq<char>, Seq<EntryText>),
    Params(Seq<char>, Seq<EntryText>, Seq<char>),
    End(Seq<char>, Seq<EntryText>, Seq<char>, Seq<char>),
}

/// Capture group `k`, empty when it is missing.
pub open spec fn group_text(cs: Seq<Option<Seq<char>>>, k: int) -> Seq<char> {
    if 0 <= k < cs.len() && cs[k] is Some {
        cs[k]->0
    } else {
        Seq::empty()
    }
}

/// The functions read from `lines[i..]` in state `st`, after those in `done`,
/// or the message of the first error. Lines outside a function that are not a
/// header are skipped. In a body each line is an instruction, a label, or the
/// `registers` line that closes it; the next two lines must be `params` and
/// `end`.
pub open spec fn parse_from(
    cfg: ParserConfig,
    lines: Seq<Seq<char>>,
    i: int,
    st: ReadState,
    done: Seq<FunctionText>,
) -> Result<Seq<FunctionText>, Seq<char>>
    decreases lines.len() - i,
{
    if i >= lines.len() || i < 0 {
        match st {
            ReadState::Outside => Ok(done),
            ReadState::End(..) => Err("Missing \"end\" parameter"@),
            _ => Err("Missing \"params\" parameter"@),
        }
    } else {
        let l = lines[i];
        match st {
            ReadState::Outside => match regex_captures(cfg.function_regex.source(), l) {
                Some(c) => parse_from(cfg, lines, i + 1, ReadState::Body(group_text(c, 1), Seq::empty()), done),
                None => parse_from(cfg, lines, i + 1, ReadState::Outside, done),
            },
            ReadState::Body(name, es) => match regex_captures(cfg.instruction_regex.source(), l) {
                Some(c) => parse_from(
                    cfg,
                    lines,
                    i + 1,
                    ReadState::Body(name, es.push(EntryText::Instr(group_text(c, 1), split_operands(group_text(c, 2))))),
                    done,
                ),
                None => match regex_captures(cfg.label_regex.source(), l) {
                    Some(c) => parse_from(cfg, lines, i + 1, ReadState::Body(name, es.push(EntryText::Label(group_text(c, 1)))), done),
                    None => match regex_captures(cfg.register_regex.source(), l) {
                        Some(c) => parse_from(cfg, lines, i + 1, ReadState::Params(name, es, group_text(c, 1)), done),
                        None => Err("Expected \"registers\" parameter, but got "@ + l),
                    },
                },
            },
            ReadState::Params(name, es, regs) => match regex_captures(cfg.params_regex.source(), l) {
                Some(c) => parse_from(cfg, lines, i + 1, ReadState::End(name, es, regs, group_text(c, 1)), done),
                None => Err("Expected \"params\" parameter"@),
            },
            ReadState::End(name, es, regs, ps) => if trim(l) == "end"@ {
                parse_from(
                    cfg,
                    lines,
                    i + 1,
                    ReadState::Outside,
                    done.push(FunctionText { name, registers: regs, params: ps, entries: es }),
                )
            } else {
                Err("Expected \"end\" parameter"@)
            },
        }
    }
}

pub open spec fn parse_lines(cfg: ParserConfig, lines: Seq<Seq<char>>) -> Result<Seq<FunctionText>, Seq<char>> {
    parse_from(cfg, lines, 0, ReadState::Outside, Seq::empty())
}

fn group(c: &Vec<Option<String>>, k: usize) -> (r: String)
    ensures
        r@ == group_text(c@.map_values(|o: Option<String>| match o {
            Some(s) => Some(s@),
            None => None,
        }), k as int),
{
    if k < c.len() {
        match &c[k] {
            Some(s) => s.clone(),
            None => String::new(),
        }
    } else {
        String::new()
    }
}

/// `s` without its leading whitespace.
pub open spec fn trim_front(s: Seq<char>) -> Seq<char>
    decreases s.len(),
{
    if s.len() > 0 && is_white(s[0]) {
        trim_front(s.drop_first())
    } else {
        s
    }
}

/// `s` without its trailing whitespace.
pub open spec fn trim_back(s: Seq<char>) -> Seq<char>
    decreases s.len(),
{
    if s.len() > 0 && is_white(s.last()) {
        trim_back(s.drop_last())
    } else {
        s
    }
}

/// `s` without its surrounding whitespace, as `str::trim` removes it.
pub open spec fn trim(s: Seq<char>) -> Seq<char> {
    trim_back(trim_front(s))
}

/// Whether the line, with surrounding whitespace removed, reads `end`.
fn is_end_line(line: &str) -> (r: bool)
    ensures
        r == (trim(line@) == "end"@),
{
    let ghost s = line@;
    let n = line.unicode_len();
    let mut lo: usize = 0;
    assert(s.subrange(0, n as int) =~= s);
    while lo < n
        invariant
            n == s.len(),
            s == line@,
            lo <= n,
            trim_front(s) == trim_front(s.subrange(lo as int, n as int)),
        ensures
            lo <= n,
            trim_front(s) == trim_front(s.subrange(lo as int, n as int)),
            lo == n || !is_white(s[lo as int]),
        decreases n - lo,
    {
        if !is_white_char(line.get_char(lo)) {
            break;
        }
        assert(s.subrange(lo as int, n as int).drop_first() =~= s.subrange(lo as int + 1, n as int));
        lo = lo + 1;
    }
    assert(trim_front(s) == s.subrange(lo as int, n as int));
    let mut hi: usize = n;
    while hi > lo
        invariant
            n == s.len(),
            s == line@,
            lo <= hi <= n,
            trim(s) == trim_back(s.subrange(lo as int, hi as int)),
        ensures
            lo <= hi <= n,
            trim(s) == trim_back(s.subrange(lo as int, hi as int)),
            hi == lo || !is_white(s[hi - 1]),
        decreases hi,
    {
        if !is_white_char(line.get_char(hi - 1)) {
            break;
        }
        assert(s.subrange(lo as int, hi as int).drop_last() =~= s.subrange(lo as int, hi as int - 1));
        hi = hi - 1;
    }
    assert(trim(s) == s.subrange(lo as int, hi as int));
    let core = line.substring_char(lo, hi);
    is_text(core, "end")
}

fn is_text(s: &str, lit: &str) -> (r: bool)
    ensures
        r == (s@ == lit@),
{
    let a = s.to_owned();
    let b = lit.to_owned();
    a.eq(&b)
}

#[derive(PartialEq, Eq, Structural, Clone, Copy)]
enum Reading {
    Outside,
    Body,
    Params,
    End,
}

spec fn state_of(m: Reading, name: String, es: Seq<ParseEntry>, regs: String, ps: String) -> ReadState {
    let ev = es.map_values(|e: ParseEntry| entry_text(e));
    match m {
        Reading::Outside => ReadState::Outside,
        Reading::Body => ReadState::Body(name@, ev),
        Reading::Params => ReadState::Params(name@, ev, regs@),
        Reading::End => ReadState::End(name@, ev, regs@, ps@),
    }
}

/// Reads the functions of a program text, given as its lines.
pub fn generate(lines: &Vec<String>, config: &ParserConfig) -> (r: Result<Vec<ParsedFunction>, String>)
    ensures
        match r {
            Ok(fs) => parse_lines(*config, lines@.map_values(|l: String| l@)) == Ok::<Seq<FunctionText>, Seq<char>>(
                fs@.map_values(|f: ParsedFunction| function_text(f)),
            ),
            Err(e) => parse_lines(*config, lines@.map_values(|l: String| l@)) == Err::<Seq<FunctionText>, Seq<char>>(e@),
        },
{
    let ghost lv = lines@.map_values(|l: String| l@);
    let mut list: Vec<ParsedFunction> = Vec::new();
    let mut mode = Reading::Outside;
    let mut name = String::new();
    let mut entries: Vec<ParseEntry> = Vec::new();
    let mut regs = String::new();
    let mut ps = String::new();
    let mut i: usize = 0;
    assert(list@.map_values(|f: ParsedFunction| function_text(f)) =~= Seq::<FunctionText>::empty());
    while i < lines.len()
        invariant
            lv == lines@.map_values(|l: String| l@),
            i <= lines.len(),
            parse_from(*config, lv, i as int, state_of(mode, name, entries@, regs, ps),
                list@.map_values(|f: ParsedFunction| function_text(f))) == parse_lines(*config, lv),
        decreases lines.len() - i,
    {
        let line = lines[i].as_str();
        assert(lv[i as int] == line@);
        let ghost ev = entries@.map_values(|e: ParseEntry| entry_text(e));
        match mode {
            Reading::Outside => {
                match config.function_regex.captures(line) {
                    Some(c) => {
                        name = group(&c, 1);
                        entries = Vec::new();
                        assert(entries@.map_values(|e: ParseEntry| entry_text(e)) =~= Seq::<EntryText>::empty());
                        mode = Reading::Body;
                    },
                    None => {},
                }
            },
            Reading::Body => {
                match config.instruction_regex.captures(line) {
                    Some(c) => {
                        let n = group(&c, 1);
                        let args = group(&c, 2);
                        let params = transform_arguments(args);
                        let e = ParseEntry::ParseInstruction(UnparsedInstruction { name: n, params });
                        let ghost et = entry_text(e);
                        entries.push(e);
                        assert(entries@.map_values(|e: ParseEntry| entry_text(e)) =~= ev.push(et));
                    },
                    None => match config.label_regex.captures(line) {
                        Some(c) => {
                            let e = ParseEntry::ParseLabel(group(&c, 1));
                            let ghost et = entry_text(e);
                            entries.push(e);
                            assert(entries@.map_values(|e: ParseEntry| entry_text(e)) =~= ev.push(et));
                        },
                        None => match config.register_regex.captures(line) {
                            Some(c) => {
                                regs = group(&c, 1);
                                mode = Reading::Params;
                            },
                            None => {
                                let mut m = "Expected \"registers\" parameter, but got ".to_owned();
                                m.append(line);
                                return Err(m);
                            },
                        },
                    },
                }
            },
            Reading::Params => {
                match config.params_regex.captures(line) {
                    Some(c) => {
                        ps = group(&c, 1);
                        mode = Reading::End;
                    },
                    None => {
                        return Err("Expected \"params\" parameter".to_owned());
                    },
                }
            },
            Reading::End => {
                if is_end_line(line) {
                    let ghost before = list@.map_values(|f: ParsedFunction| function_text(f));
                    let f = ParsedFunction { name, registers: regs, params: ps, instructions: entries };
                    let ghost ft = function_text(f);
                    list.push(f);
                    assert(list@.map_values(|f: ParsedFunction| function_text(f)) =~= before.push(ft));
                    name = String::new();
                    entries = Vec::new();
                    regs = String::new();
                    ps = String::new();
                    mode = Reading::Outside;
                } else {
                    return Err("Expected \"end\" parameter".to_owned());
                }
            },
        }
        i = i + 1;
    }
    match mode {
        Reading::Outside => Ok(list),
        Reading::End => Err("Missing \"end\" parameter".to_owned()),
        _ => Err("Missing \"params\" parameter".to_owned()),
    }
}

/// A singly linked list of integers.
pub enum Node {
    Unit(i32, Box<Node>),
    End,
}

/// The integers of a list, front first.
pub open spec fn node_values(n: Node) -> Seq<i32>
    decreases n,
{
    match n {
        Node::Unit(v, rest) => seq![v] + node_values(*rest),
        Node::End => Seq::empty(),
    }
}

impl Node {
    /// The list holding `list`'s elements in order.
    pub fn construct(list: &[i32]) -> (r: Node)
        ensures
            node_values(r) == list@,
    {
        let mut prev = Node::End;
        let mut k: usize = list.len();
        while k > 0
            invariant
                k <= list.len(),
                node_values(prev) == list@.subrange(k as int, list@.len() as int),
            decreases k,
        {
            k = k - 1;
            prev = Node::Unit(list[k], Box::new(prev));
            assert(node_values(prev) =~= list@.subrange(k as int, list@.len() as int));
        }
        assert(list@.subrange(0, list@.len() as int) =~= list@);
        prev
    }
}

} // verus!
