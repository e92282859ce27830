//! Arguments of the simulation commands.
use crate::text::{ascii_digit, characters, copied, digit_range, is_ascii_digit, joined, same};
use vstd::prelude::*;

verus! {

/// One argument: its text, if it is UTF-8, and how it is shown in any case.
pub struct Word {
    pub text: Option<String>,
    pub shown: String,
}

pub struct WordView {
    pub text: Option<Seq<char>>,
    pub shown: Seq<char>,
}

impl View for Word {
    type V = WordView;

    open spec fn view(&self) -> WordView {
        WordView { text: crate::text::opt(self.text), shown: self.shown@ }
    }
}

pub open spec fn words_of(list: Seq<Word>) -> Seq<WordView> {
    list.map_values(|w: Word| w@)
}

pub enum ConsoleCommand {
    Demo,
    Inspect(String),
}

pub enum CommandView {
    Demo,
    Inspect(Seq<char>),
}

impl View for ConsoleCommand {
    type V = CommandView;

    open spec fn view(&self) -> CommandView {
        match self {
            ConsoleCommand::Demo => CommandView::Demo,
            ConsoleCommand::Inspect(id) => CommandView::Inspect(id@),
        }
    }
}

/// Parsed arguments; `data_dir` is the position of the directory.
pub struct Arguments {
    pub command: ConsoleCommand,
    pub data_dir: usize,
    pub concurrency: usize,
}

pub struct ArgumentsView {
    pub command: CommandView,
    pub data_dir: usize,
    pub concurrency: usize,
}

impl View for Arguments {
    type V = ArgumentsView;

    open spec fn view(&self) -> ArgumentsView {
        ArgumentsView { command: self.command@, data_dir: self.data_dir, concurrency: self.concurrency }
    }
}

// Counts.

/// The count that the digits from `i` on make of `value`, or why they make none.
pub open spec fn counted(text: Seq<char>, i: nat, value: nat) -> Result<usize, Seq<char>>
    decreases text.len() - i,
{
    if i >= text.len() {
        Ok(value as usize)
    } else if !is_ascii_digit(text[i as int]) {
        Err("invalid digit found in string"@)
    } else {
        let next = value * 10 + (text[i as int] as int - '0' as int);
        if next > usize::MAX {
            Err("number too large to fit in target type"@)
        } else {
            counted(text, i + 1, next as nat)
        }
    }
}

/// The count that a text stands for: digits, with a plus sign or without.
pub open spec fn count_of(text: Seq<char>) -> Result<usize, Seq<char>> {
    if text.len() == 0 {
        Err("cannot parse integer from empty string"@)
    } else if text[0] == '+' {
        if text.len() == 1 { Err("invalid digit found in string"@) } else { counted(text, 1, 0) }
    } else {
        counted(text, 0, 0)
    }
}

pub fn parse_count(text: &str) -> (r: Result<usize, String>)
    ensures
        match r {
            Ok(n) => count_of(text@) == Ok::<usize, Seq<char>>(n),
            Err(m) => count_of(text@) == Err::<usize, Seq<char>>(m@),
        },
{
    let list = characters(text);
    if list.len() == 0 {
        return Err(copied("cannot parse integer from empty string"));
    }
    let mut i: usize = 0;
    if list[0] == '+' {
        if list.len() == 1 {
            return Err(copied("invalid digit found in string"));
        }
        i = 1;
    }
    let mut value: usize = 0;
    while i < list.len()
        invariant
            i <= list.len(),
            list@ == text@,
            count_of(text@) == counted(text@, i as nat, value as nat),
        decreases list.len() - i,
    {
        let c = list[i];
        if !ascii_digit(c) {
            return Err(copied("invalid digit found in string"));
        }
        proof {
            digit_range(c);
        }
        let d: u128 = c as u128 - '0' as u128;
        let next: u128 = value as u128 * 10 + d;
        if next > usize::MAX as u128 {
            return Err(copied("number too large to fit in target type"));
        }
        value = next as usize;
        i = i + 1;
    }
    Ok(value)
}

// Options.

pub struct Options {
    pub data_dir: Option<usize>,
    pub task: Option<String>,
    pub concurrency: usize,
}

pub struct OptionsView {
    pub data_dir: Option<usize>,
    pub task: Option<Seq<char>>,
    pub concurrency: usize,
}

impl View for Options {
    type V = OptionsView;

    open spec fn view(&self) -> OptionsView {
        OptionsView { data_dir: self.data_dir, task: crate::text::opt(self.task), concurrency: self.concurrency }
    }
}

/// The options after one more pair at `i`.
pub open spec fn taken(args: Seq<WordView>, i: nat, o: OptionsView) -> Result<OptionsView, Seq<char>> {
    let flag = args[i as int];
    let value = args[i as int + 1];
    if flag.text == Some("--data-dir"@) && o.data_dir is None {
        Ok(OptionsView { data_dir: Some((i + 1) as usize), ..o })
    } else if flag.text == Some("--task"@) && o.task is None {
        match value.text {
            None => Err("task id must be UTF-8"@),
            Some(t) => Ok(OptionsView { task: Some(t), ..o }),
        }
    } else if flag.text == Some("--concurrency"@) {
        match value.text {
            None => Err("invalid concurrency"@),
            Some(t) => match count_of(t) {
                Err(m) => Err(m),
                Ok(n) => Ok(OptionsView { concurrency: n, ..o }),
            },
        }
    } else {
        Err("unknown or repeated option: "@ + flag.shown)
    }
}

pub open spec fn options_from(args: Seq<WordView>, i: nat, o: OptionsView) -> Result<OptionsView, Seq<char>>
    decreases args.len() - i,
{
    if i >= args.len() {
        Ok(o)
    } else if i + 1 >= args.len() {
        Err("missing value for "@ + args[i as int].shown)
    } else {
        match taken(args, i, o) {
            Err(m) => Err(m),
            Ok(n) => options_from(args, i + 2, n),
        }
    }
}

/// What the arguments say; nothing if they ask for help.
pub open spec fn parsed(args: Seq<WordView>) -> Result<Option<ArgumentsView>, Seq<char>> {
    if args.len() == 0 || args[0].text == Some("--help"@) || args[0].text == Some("-h"@) {
        Ok(None)
    } else {
        match options_from(args, 1, OptionsView { data_dir: None, task: None, concurrency: 2 }) {
            Err(m) => Err(m),
            Ok(o) => if !(1 <= o.concurrency <= 32) {
                Err("concurrency must be between 1 and 32"@)
            } else {
                let command = if args[0].text == Some("demo"@) && o.task is None {
                    Ok(CommandView::Demo)
                } else if args[0].text == Some("inspect"@) {
                    match o.task {
                        None => Err("inspect requires --task"@),
                        Some(t) => Ok(CommandView::Inspect(t)),
                    }
                } else {
                    Err("expected demo or inspect; see --help"@)
                };
                match command {
                    Err(m) => Err(m),
                    Ok(command) => match o.data_dir {
                        None => Err("--data-dir is required"@),
                        Some(data_dir) => Ok(Some(ArgumentsView { command, data_dir, concurrency: o.concurrency })),
                    },
                }
            },
        }
    }
}

fn says(word: &Word, text: &str) -> (r: bool)
    ensures
        r == (word@.text == Some(text@)),
{
    match &word.text {
        None => false,
        Some(t) => same(t, text),
    }
}

fn take(args: &Vec<Word>, i: usize, o: Options) -> (r: Result<Options, String>)
    requires
        i + 1 < args.len(),
    ensures
        match r {
            Ok(n) => taken(words_of(args@), i as nat, o@) == Ok::<OptionsView, Seq<char>>(n@),
            Err(m) => taken(words_of(args@), i as nat, o@) == Err::<OptionsView, Seq<char>>(m@),
        },
{
    let flag = &args[i];
    let value = &args[i + 1];
    assert(words_of(args@)[i as int] == flag@);
    assert(words_of(args@)[i as int + 1] == value@);
    let mut n = o;
    if says(flag, "--data-dir") && n.data_dir.is_none() {
        n.data_dir = Some(i + 1);
        return Ok(n);
    }
    if says(flag, "--task") && n.task.is_none() {
        return match &value.text {
            None => Err(copied("task id must be UTF-8")),
            Some(t) => {
                n.task = Some(t.clone());
                Ok(n)
            },
        };
    }
    if says(flag, "--concurrency") {
        return match &value.text {
            None => Err(copied("invalid concurrency")),
            Some(t) => match parse_count(t) {
                Err(m) => Err(m),
                Ok(c) => {
                    n.concurrency = c;
                    Ok(n)
                },
            },
        };
    }
    Err(joined("unknown or repeated option: ", &flag.shown))
}

impl Arguments {
    /// Parses the arguments of the program.
    pub fn parse(args: &Vec<Word>) -> (r: Result<Option<Arguments>, String>)
        ensures
            match r {
                Ok(None) => parsed(words_of(args@)) == Ok::<Option<ArgumentsView>, Seq<char>>(None),
                Ok(Some(a)) => parsed(words_of(args@)) == Ok::<Option<ArgumentsView>, Seq<char>>(Some(a@)),
                Err(m) => parsed(words_of(args@)) == Err::<Option<ArgumentsView>, Seq<char>>(m@),
            },
    {
        if args.len() == 0 {
            return Ok(None);
        }
        let ghost all = words_of(args@);
        assert(all[0] == args@[0]@);
        if says(&args[0], "--help") || says(&args[0], "-h") {
            return Ok(None);
        }
        let mut o = Options { data_dir: None, task: None, concurrency: 2 };
        let ghost begin = OptionsView { data_dir: None, task: None, concurrency: 2 };
        let mut i: usize = 1;
        while i < args.len()
            invariant
                1 <= i,
                i <= args.len(),
                all == words_of(args@),
                all[0] == args@[0]@,
                !(all.len() == 0 || all[0].text == Some("--help"@) || all[0].text == Some("-h"@)),
                begin == (OptionsView { data_dir: None, task: None, concurrency: 2 }),
                options_from(all, 1, begin) == options_from(all, i as nat, o@),
            decreases args.len() - i,
        {
            if i + 1 >= args.len() {
                assert(all[i as int] == args@[i as int]@);
                return Err(joined("missing value for ", &args[i].shown));
            }
            match take(args, i, o) {
                Err(m) => {
                    return Err(m);
                },
                Ok(n) => {
                    o = n;
                },
            }
            i = i + 2;
        }
        if o.concurrency < 1 || o.concurrency > 32 {
            return Err(copied("concurrency must be between 1 and 32"));
        }
        let command = if says(&args[0], "demo") && o.task.is_none() {
            ConsoleCommand::Demo
        } else if says(&args[0], "inspect") {
            match o.task {
                None => {
                    return Err(copied("inspect requires --task"));
                },
                Some(t) => ConsoleCommand::Inspect(t),
            }
        } else {
            return Err(copied("expected demo or inspect; see --help"));
        };
        match o.data_dir {
            None => Err(copied("--data-dir is required")),
            Some(data_dir) => Ok(Some(Arguments { command, data_dir, concurrency: o.concurrency })),
        }
    }
}

} // verus!
