use vstd::prelude::*;
use crate::lang::text::{chars_of, string_from_chars};

verus! {

/// A command line flag that the interpreter knows.
#[derive(Debug)]
pub enum ArgFlags {
    Debug,
    DebugFile(String),
    Help,
}

/// The mathematical value of an [`ArgFlags`].
pub enum SArgFlags {
    Debug,
    DebugFile(Seq<char>),
    Help,
}

impl View for ArgFlags {
    type V = SArgFlags;

    open spec fn view(&self) -> SArgFlags {
        match self {
            ArgFlags::Debug => SArgFlags::Debug,
            ArgFlags::DebugFile(f) => SArgFlags::DebugFile(f@),
            ArgFlags::Help => SArgFlags::Help,
        }
    }
}

/// What a command line argument is: a file to run, or a flag with its key
/// and value (`-key=value`).
pub enum ArgType {
    File,
    Flag(String, String),
}

pub enum SArgType {
    File,
    Flag(Seq<char>, Seq<char>),
}

impl View for ArgType {
    type V = SArgType;

    open spec fn view(&self) -> SArgType {
        match self {
            ArgType::File => SArgType::File,
            ArgType::Flag(k, v) => SArgType::Flag(k@, v@),
        }
    }
}

/// The parsed command line: the program name, the file to run, the flags.
#[derive(Debug)]
pub struct Kargs {
    pub zero: String,
    pub file: Option<String>,
    pub flags: Vec<ArgFlags>,
}

/// The index of the first `=` in `t` from `i` on, or the length of `t`.
pub open spec fn first_equals(t: Seq<char>, i: int) -> int
    decreases t.len() - i,
{
    if i >= t.len() {
        t.len() as int
    } else if t[i] == '=' {
        i
    } else {
        first_equals(t, i + 1)
    }
}

/// A flag written as `key=value`, or as `key` alone with an empty value.
pub open spec fn sp_flag(t: Seq<char>) -> SArgType {
    let k = first_equals(t, 0);
    SArgType::Flag(t.take(k), if k < t.len() { t.skip(k + 1) } else { Seq::empty() })
}

/// What an argument is: a flag when it holds a `-` (the text after the
/// first `-`), else a file, and nothing when it is empty.
pub open spec fn sp_arg_type(s: Seq<char>, i: int, acc: Option<SArgType>) -> Option<SArgType>
    decreases s.len() - i,
{
    if i >= s.len() {
        acc
    } else if s[i] == '-' {
        Some(sp_flag(s.skip(i + 1)))
    } else {
        sp_arg_type(s, i + 1, Some(SArgType::File))
    }
}

/// Reads a flag from `t` starting at `from`: the key up to the first `=`,
/// the value after it.
fn load_flag(t: &Vec<char>, from: usize) -> (r: ArgType)
    requires
        from <= t.len(),
    ensures
        r@ == sp_flag(t@.skip(from as int)),
{
    let ghost s = t@.skip(from as int);
    let mut key: Vec<char> = Vec::new();
    let mut i: usize = from;
    while i < t.len() && t[i] != '='
        invariant
            from <= i <= t.len(),
            s == t@.skip(from as int),
            key@ == s.take(i - from),
            first_equals(s, i - from) == first_equals(s, 0),
        decreases t.len() - i,
    {
        proof {
            assert(s.take(i - from + 1) =~= key@.push(t@[i as int]));
        }
        key.push(t[i]);
        i = i + 1;
    }
    let ghost k = first_equals(s, 0);
    assert(k == i - from);
    let mut value: Vec<char> = Vec::new();
    let mut j: usize = if i < t.len() { i + 1 } else { i };
    let ghost j0 = j;
    while j < t.len()
        invariant
            j0 <= j <= t.len(),
            j0 == (if i < t.len() { i + 1 } else { i as int }),
            i <= t.len(),
            value@ == t@.subrange(j0 as int, j as int),
        decreases t.len() - j,
    {
        proof {
            assert(t@.subrange(j0 as int, j + 1) =~= value@.push(t@[j as int]));
        }
        value.push(t[j]);
        j = j + 1;
    }
    proof {
        if k < s.len() {
            assert(value@ =~= s.skip(k + 1));
        } else {
            assert(value@ =~= Seq::<char>::empty());
        }
        assert(key@ =~= s.take(k));
    }
    ArgType::Flag(string_from_chars(&key), string_from_chars(&value))
}

/// The view of an optional argument type.
pub open spec fn opt_arg_view(a: Option<ArgType>) -> Option<SArgType> {
    match a {
        Some(t) => Some(t@),
        None => None,
    }
}

/// Classifies one command line argument: a flag from its first `-` on, a
/// file when it holds no `-`, nothing when it is empty.
pub fn arg_type(arg: &str) -> (r: Option<ArgType>)
    ensures
        opt_arg_view(r) == sp_arg_type(arg@, 0, None),
{
    let t = chars_of(arg);
    let mut seen_file = false;
    let mut i: usize = 0;
    while i < t.len()
        invariant
            i <= t.len(),
            t@ == arg@,
            sp_arg_type(arg@, 0, None) == sp_arg_type(
                arg@,
                i as int,
                if seen_file { Some(SArgType::File) } else { None },
            ),
        decreases t.len() - i,
    {
        if t[i] == '-' {
            return Some(load_flag(&t, i + 1));
        }
        seen_file = true;
        i = i + 1;
    }
    if seen_file {
        Some(ArgType::File)
    } else {
        None
    }
}

/// The flag that an argument stands for, if the interpreter knows it:
/// `debug` alone, `debug=<file>`, `help`.
pub open spec fn sp_arg_flag(a: Option<SArgType>) -> Option<SArgFlags> {
    match a {
        Some(SArgType::Flag(k, v)) => if k == seq!['d', 'e', 'b', 'u', 'g'] {
            if v.len() == 0 {
                Some(SArgFlags::Debug)
            } else {
                Some(SArgFlags::DebugFile(v))
            }
        } else if k == seq!['h', 'e', 'l', 'p'] {
            Some(SArgFlags::Help)
        } else {
            None
        },
        _ => None,
    }
}

/// The flags that the documentation names: `-d` or `--debug`, `-df` or
/// `--debug-file` (followed by the file), `-h` or `--help`.
pub open spec fn is_debug_word(a: Seq<char>) -> bool {
    a == seq!['-', 'd'] || a == seq!['-', '-', 'd', 'e', 'b', 'u', 'g']
}

pub open spec fn is_debug_file_word(a: Seq<char>) -> bool {
    a == seq!['-', 'd', 'f'] || a == seq!['-', '-', 'd', 'e', 'b', 'u', 'g', '-', 'f', 'i', 'l', 'e']
}

pub open spec fn is_help_word(a: Seq<char>) -> bool {
    a == seq!['-', 'h'] || a == seq!['-', '-', 'h', 'e', 'l', 'p']
}

/// Reading the arguments from index `i` on, with the file and the flags
/// found so far. A documented flag is taken as such (`-df` also takes the
/// argument after it, and is dropped when there is none); any other
/// argument is a file when it holds no `-`, else a `key=value` flag from its
/// first `-` on, kept when its key is known. The last file named wins.
pub open spec fn sp_parse_from(
    args: Seq<Seq<char>>,
    i: int,
    file: Option<Seq<char>>,
    flags: Seq<SArgFlags>,
) -> (Option<Seq<char>>, Seq<SArgFlags>)
    decreases args.len() - i,
{
    if i < 0 || i >= args.len() {
        (file, flags)
    } else {
        let a = args[i];
        if is_debug_word(a) {
            sp_parse_from(args, i + 1, file, flags.push(SArgFlags::Debug))
        } else if is_debug_file_word(a) {
            if i + 1 < args.len() {
                sp_parse_from(args, i + 2, file, flags.push(SArgFlags::DebugFile(args[i + 1])))
            } else {
                sp_parse_from(args, i + 1, file, flags)
            }
        } else if is_help_word(a) {
            sp_parse_from(args, i + 1, file, flags.push(SArgFlags::Help))
        } else {
            let t = sp_arg_type(a, 0, None);
            if t == Some(SArgType::File) {
                sp_parse_from(args, i + 1, Some(a), flags)
            } else {
                match sp_arg_flag(t) {
                    Some(f) => sp_parse_from(args, i + 1, file, flags.push(f)),
                    None => sp_parse_from(args, i + 1, file, flags),
                }
            }
        }
    }
}

/// The mathematical value of [`Kargs`].
pub struct SKargs {
    pub zero: Seq<char>,
    pub file: Option<Seq<char>>,
    pub flags: Seq<SArgFlags>,
}

impl View for Kargs {
    type V = SKargs;

    open spec fn view(&self) -> SKargs {
        SKargs {
            zero: self.zero@,
            file: opt_text(self.file),
            flags: self.flags@.map_values(|f: ArgFlags| f@),
        }
    }
}

/// The arguments as character sequences.
pub open spec fn arg_texts(args: Seq<String>) -> Seq<Seq<char>> {
    args.map_values(|a: String| a@)
}

/// The text of an optional string.
pub open spec fn opt_text(s: Option<String>) -> Option<Seq<char>> {
    match s {
        Some(t) => Some(t@),
        None => None,
    }
}

/// Whether a string is one of two words.
fn is_one_of(a: &String, w1: &str, w2: &str) -> (r: bool)
    ensures
        r == (a@ == w1@ || a@ == w2@),
{
    *a == w1.to_owned() || *a == w2.to_owned()
}

/// What the command line means: the program name first, then the file to
/// run and the flags in order. Fails when there is no argument at all.
pub fn parse_args(args: Vec<String>) -> (r: Result<Kargs, String>)
    ensures
        args.len() == 0 <==> r is Err,
        r matches Err(e) ==> e@ == "Cannot load 0th arg"@,
        r matches Ok(k) ==> ({
            let (file, flags) = sp_parse_from(arg_texts(args@), 1, None, Seq::empty());
            k@ == SKargs { zero: args@[0]@, file, flags }
        }),
{
    if args.len() == 0 {
        return Err("Cannot load 0th arg".to_owned());
    }
    let zero = args[0].clone();
    let mut file: Option<String> = None;
    let mut flags: Vec<ArgFlags> = Vec::new();
    let ghost all = arg_texts(args@);
    proof {
        reveal_strlit("-d");
        reveal_strlit("--debug");
        reveal_strlit("-df");
        reveal_strlit("--debug-file");
        reveal_strlit("-h");
        reveal_strlit("--help");
        reveal_strlit("debug");
        reveal_strlit("help");
        reveal_strlit("");
        assert("-d"@ =~= seq!['-', 'd']);
        assert("--debug"@ =~= seq!['-', '-', 'd', 'e', 'b', 'u', 'g']);
        assert("-df"@ =~= seq!['-', 'd', 'f']);
        assert("--debug-file"@ =~= seq!['-', '-', 'd', 'e', 'b', 'u', 'g', '-', 'f', 'i', 'l', 'e']);
        assert("-h"@ =~= seq!['-', 'h']);
        assert("--help"@ =~= seq!['-', '-', 'h', 'e', 'l', 'p']);
        assert("debug"@ =~= seq!['d', 'e', 'b', 'u', 'g']);
        assert("help"@ =~= seq!['h', 'e', 'l', 'p']);
        assert(""@ =~= Seq::<char>::empty());
    }
    assert(flags@.map_values(|f: ArgFlags| f@) =~= Seq::<SArgFlags>::empty());
    let mut i: usize = 1;
    while i < args.len()
        invariant
            1 <= i,
            all == arg_texts(args@),
            "-d"@ == seq!['-', 'd'],
            "--debug"@ == seq!['-', '-', 'd', 'e', 'b', 'u', 'g'],
            "-df"@ == seq!['-', 'd', 'f'],
            "--debug-file"@ == seq!['-', '-', 'd', 'e', 'b', 'u', 'g', '-', 'f', 'i', 'l', 'e'],
            "-h"@ == seq!['-', 'h'],
            "--help"@ == seq!['-', '-', 'h', 'e', 'l', 'p'],
            "debug"@ == seq!['d', 'e', 'b', 'u', 'g'],
            "help"@ == seq!['h', 'e', 'l', 'p'],
            ""@ == Seq::<char>::empty(),
            sp_parse_from(all, i as int, opt_text(file), flags@.map_values(|f: ArgFlags| f@))
                == sp_parse_from(all, 1, None, Seq::empty()),
        decreases args.len() - i,
    {
        let ghost fv0 = flags@.map_values(|f: ArgFlags| f@);
        assert(all[i as int] == args@[i as int]@);
        if is_one_of(&args[i], "-d", "--debug") {
            flags.push(ArgFlags::Debug);
            assert(flags@.map_values(|f: ArgFlags| f@) =~= fv0.push(SArgFlags::Debug));
            i = i + 1;
        } else if is_one_of(&args[i], "-df", "--debug-file") {
            if i + 1 < args.len() {
                assert(all[i + 1] == args@[i + 1]@);
                flags.push(ArgFlags::DebugFile(args[i + 1].clone()));
                assert(flags@.map_values(|f: ArgFlags| f@) =~= fv0.push(
                    SArgFlags::DebugFile(all[i + 1]),
                ));
                i = i + 2;
            } else {
                i = i + 1;
            }
        } else if is_one_of(&args[i], "-h", "--help") {
            flags.push(ArgFlags::Help);
            assert(flags@.map_values(|f: ArgFlags| f@) =~= fv0.push(SArgFlags::Help));
            i = i + 1;
        } else {
            let a = arg_type(args[i].as_str());
            assert(opt_arg_view(a) == sp_arg_type(all[i as int], 0, None));
            match a {
                Some(ArgType::File) => {
                    file = Some(args[i].clone());
                },
                Some(ArgType::Flag(key, value)) => {
                    if key == "debug".to_owned() {
                        if value == "".to_owned() {
                            flags.push(ArgFlags::Debug);
                            assert(flags@.map_values(|f: ArgFlags| f@) =~= fv0.push(SArgFlags::Debug));
                        } else {
                            let ghost v = value@;
                            assert(v.len() == 0 ==> v =~= Seq::<char>::empty());
                            flags.push(ArgFlags::DebugFile(value));
                            assert(flags@.map_values(|f: ArgFlags| f@) =~= fv0.push(
                                SArgFlags::DebugFile(v),
                            ));
                        }
                    } else if key == "help".to_owned() {
                        flags.push(ArgFlags::Help);
                        assert(flags@.map_values(|f: ArgFlags| f@) =~= fv0.push(SArgFlags::Help));
                    }
                },
                None => {},
            }
            i = i + 1;
        }
    }
    Ok(Kargs { zero, file, flags })
}

} // verus!
