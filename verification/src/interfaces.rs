//! Bounded command-line input and JSON views for the common Harness contracts.
//!
//! A provider project is never treated as verified desktop client state. An argument is a
//! text if it is valid UTF-8 and nothing otherwise; paths are handed on by their position,
//! so that the caller keeps their encoding.
pub mod laws;
pub mod repair;
pub mod reports;
pub mod steps;
pub mod ui;
pub mod views;
pub mod words;

use crate::harnesses::ConversationVisibility;
use crate::protocol::{is_id, valid_id};
use crate::table::Table;
use crate::text::{
    ascii_digit, begins, blank, byte_len, characters, controlled, copied, decimal, decimal_text, digit_range, digits_are_bytes, has_control, is_ascii_digit, is_blank,
    is_name_char, joined, name_char, opt, same, starts_with, utf8_len,
};
use vstd::prelude::*;

verus! {

pub const MAX_PROMPT_BYTES: usize = 65536;

pub const DEFAULT_TIMEOUT_SECS: u64 = 180;

pub const MAX_TIMEOUT_SECS: u64 = 1800;

pub const HELP: &'static str = "Harness commands (JSON output):
  recuvora harness list --config PATH [--extensions PATH]
  recuvora harness projects --config PATH [--harness ID] --cwd PATH [--timeout-secs N]
  recuvora harness create-project --config PATH [--harness ID] --cwd PATH --name NAME --idempotency-key KEY [--timeout-secs N]
  recuvora harness run --config PATH [--harness ID] --cwd PATH (--prompt TEXT | --prompt-file PATH) [--model MODEL] --visibility client|hidden (--project ID | --no-project) [--timeout-secs N]

Remote commands require --extensions PATH and --workspace ID instead of --cwd PATH.
The remote node, not this host, resolves and validates that workspace directory.
Configuration must be explicit. All paths preserve their operating-system encoding.
Timeouts use one command budget, default 180 seconds, allowed 1..=1800 seconds.
Prompt input must be nonempty UTF-8 and at most 65536 bytes.
create-project registers an existing allowed directory; it does not create directories.
hidden conversations cannot select a native project. Client project grouping is
reported separately from native project assignment and may remain unverified.
Cancellation or timeout after submission may leave a conversation/project outcome
unknown. Commands never automatically retry creation or conversation submission.
";

/// Where a run's prompt comes from.
pub enum Prompt {
    Text(String),
    File(usize),
}

pub enum PromptView {
    Text(Seq<char>),
    File(usize),
}

impl View for Prompt {
    type V = PromptView;

    open spec fn view(&self) -> PromptView {
        match self {
            Prompt::Text(t) => PromptView::Text(t@),
            Prompt::File(i) => PromptView::File(*i),
        }
    }
}

/// A command; `cwd` is the position of its directory, if it has a local one.
pub enum HarnessCommand {
    List,
    Projects { cwd: Option<usize>, timeout_secs: u64 },
    CreateProject { cwd: Option<usize>, name: String, idempotency_key: String, timeout_secs: u64 },
    Run {
        cwd: Option<usize>,
        prompt: Prompt,
        model: Option<String>,
        visibility: ConversationVisibility,
        project: Option<String>,
        timeout_secs: u64,
    },
}

pub enum CommandView {
    List,
    Projects { cwd: Option<usize>, timeout_secs: u64 },
    CreateProject { cwd: Option<usize>, name: Seq<char>, idempotency_key: Seq<char>, timeout_secs: u64 },
    Run {
        cwd: Option<usize>,
        prompt: PromptView,
        model: Option<Seq<char>>,
        visibility: ConversationVisibility,
        project: Option<Seq<char>>,
        timeout_secs: u64,
    },
}

impl View for HarnessCommand {
    type V = CommandView;

    open spec fn view(&self) -> CommandView {
        match self {
            HarnessCommand::List => CommandView::List,
            HarnessCommand::Projects { cwd, timeout_secs } => CommandView::Projects {
                cwd: *cwd,
                timeout_secs: *timeout_secs,
            },
            HarnessCommand::CreateProject { cwd, name, idempotency_key, timeout_secs } => CommandView::CreateProject {
                cwd: *cwd,
                name: name@,
                idempotency_key: idempotency_key@,
                timeout_secs: *timeout_secs,
            },
            HarnessCommand::Run { cwd, prompt, model, visibility, project, timeout_secs } => CommandView::Run {
                cwd: *cwd,
                prompt: prompt@,
                model: opt(*model),
                visibility: *visibility,
                project: opt(*project),
                timeout_secs: *timeout_secs,
            },
        }
    }
}

/// Parsed arguments; `config` and `extensions` are positions.
pub struct HarnessArguments {
    pub config: usize,
    pub extensions: Option<usize>,
    pub workspace: Option<String>,
    pub harness: Option<String>,
    pub command: HarnessCommand,
}

pub struct ArgumentsView {
    pub config: usize,
    pub extensions: Option<usize>,
    pub workspace: Option<Seq<char>>,
    pub harness: Option<Seq<char>>,
    pub command: CommandView,
}

impl View for HarnessArguments {
    type V = ArgumentsView;

    open spec fn view(&self) -> ArgumentsView {
        ArgumentsView {
            config: self.config,
            extensions: self.extensions,
            workspace: opt(self.workspace),
            harness: opt(self.harness),
            command: self.command@,
        }
    }
}

// Syntax.

pub open spec fn words(args: Seq<Option<String>>) -> Seq<Option<Seq<char>>> {
    args.map_values(|a: Option<String>| opt(a))
}

pub open spec fn is_command(c: Seq<char>) -> bool {
    c == "list"@ || c == "projects"@ || c == "create-project"@ || c == "run"@
}

pub open spec fn asks_help(flag: Seq<char>) -> bool {
    flag == "--help"@ || flag == "-h"@
}

/// The options that a command has.
pub open spec fn allowed(c: Seq<char>, flag: Seq<char>) -> bool {
    ||| flag == "--config"@ || flag == "--extensions"@
    ||| c != "list"@ && (flag == "--harness"@ || flag == "--cwd"@ || flag == "--workspace"@ || flag == "--timeout-secs"@)
    ||| c == "create-project"@ && (flag == "--name"@ || flag == "--idempotency-key"@)
    ||| c == "run"@ && (flag == "--prompt"@ || flag == "--prompt-file"@ || flag == "--model"@ || flag == "--visibility"@
        || flag == "--project"@ || flag == "--no-project"@)
}

/// A value that is none: empty, or another option.
pub open spec fn no_value(v: Option<Seq<char>>) -> bool {
    v is Some && (v->0.len() == 0 || starts_with(v->0, "--"@))
}

/// The options from `i` on: each flag with the position of its value; nothing if help was
/// asked for.
pub open spec fn scanned(args: Seq<Option<Seq<char>>>, c: Seq<char>, i: nat, options: Map<Seq<char>, usize>) -> Result<
    Option<Map<Seq<char>, usize>>,
    Seq<char>,
>
    decreases args.len() - i,
{
    if i >= args.len() {
        Ok(Some(options))
    } else {
        match args[i as int] {
            None => Err("option names must be valid UTF-8"@),
            Some(flag) => if asks_help(flag) && i == 1 {
                if args.len() == 2 { Ok(None) } else { Err("help does not accept additional arguments"@) }
            } else if !allowed(c, flag) {
                Err("unknown or inapplicable option for "@ + c + ": "@ + flag)
            } else if options.contains_key(flag) {
                Err("duplicate option: "@ + flag)
            } else if flag == "--no-project"@ {
                scanned(args, c, i + 1, options.insert(flag, i as usize))
            } else if i + 1 >= args.len() {
                Err("missing value for "@ + flag)
            } else if no_value(args[i as int + 1]) {
                Err("missing or empty value for "@ + flag)
            } else {
                scanned(args, c, i + 2, options.insert(flag, (i + 1) as usize))
            },
        }
    }
}

pub open spec fn text_bad(value: Seq<char>, limit: nat, controls: bool) -> bool {
    is_blank(value) || byte_len(value) > limit || (!controls && has_control(value))
}

pub open spec fn text_message(label: Seq<char>, limit: nat, controls: bool) -> Seq<char> {
    label + " must contain 1..="@ + decimal(limit) + " bytes of nonempty UTF-8"@ + (if controls {
        ""@
    } else {
        " without control characters"@
    })
}

/// The text of an option, if it is there.
pub open spec fn text_of(
    args: Seq<Option<Seq<char>>>,
    options: Map<Seq<char>, usize>,
    flag: Seq<char>,
    limit: nat,
    controls: bool,
) -> Result<Option<Seq<char>>, Seq<char>> {
    if !options.contains_key(flag) {
        Ok(None)
    } else {
        match args[options[flag] as int] {
            None => Err(flag + " must be valid UTF-8"@),
            Some(v) => if text_bad(v, limit, controls) {
                Err(text_message(flag, limit, controls))
            } else {
                Ok(Some(v))
            },
        }
    }
}

/// The text of an option that must be there.
pub open spec fn needed_text(
    args: Seq<Option<Seq<char>>>,
    options: Map<Seq<char>, usize>,
    flag: Seq<char>,
    limit: nat,
    controls: bool,
) -> Result<Seq<char>, Seq<char>> {
    match text_of(args, options, flag, limit, controls) {
        Err(m) => Err(m),
        Ok(None) => Err("missing required option "@ + flag),
        Ok(Some(v)) => Ok(v),
    }
}

pub open spec fn digits_only(text: Seq<char>) -> bool {
    forall|i: int| 0 <= i < text.len() ==> is_ascii_digit(#[trigger] text[i])
}

pub open spec fn number_of(text: Seq<char>) -> nat
    decreases text.len(),
{
    if text.len() == 0 {
        0
    } else {
        number_of(text.drop_last()) * 10 + (text.last() as int - '0' as int) as nat
    }
}

/// The seconds that an option gives.
pub open spec fn timeout_from(args: Seq<Option<Seq<char>>>, options: Map<Seq<char>, usize>) -> Result<u64, Seq<char>> {
    if !options.contains_key("--timeout-secs"@) {
        Ok(DEFAULT_TIMEOUT_SECS)
    } else {
        match args[options["--timeout-secs"@] as int] {
            None => Err("--timeout-secs must be valid UTF-8"@),
            Some(v) => if v.len() == 0 || byte_len(v) > 4 || !digits_only(v) {
                Err("--timeout-secs must be an integer from 1 to 1800"@)
            } else if !(1 <= number_of(v) <= MAX_TIMEOUT_SECS) {
                Err("--timeout-secs must be between 1 and 1800"@)
            } else {
                Ok(number_of(v) as u64)
            },
        }
    }
}

pub open spec fn at(options: Map<Seq<char>, usize>, flag: Seq<char>) -> Option<usize> {
    if options.contains_key(flag) { Some(options[flag]) } else { None }
}

/// The directory that a command works in: a position, or none in a node's workspace.
pub open spec fn directory_from(options: Map<Seq<char>, usize>, remote: bool) -> Result<Option<usize>, Seq<char>> {
    if remote {
        if options.contains_key("--cwd"@) { Err("choose --workspace ID or --cwd PATH"@) } else { Ok(None) }
    } else if !options.contains_key("--cwd"@) {
        Err("missing required option --cwd"@)
    } else {
        Ok(Some(options["--cwd"@]))
    }
}

pub open spec fn create_from(
    args: Seq<Option<Seq<char>>>,
    options: Map<Seq<char>, usize>,
    cwd: Option<usize>,
    timeout_secs: u64,
) -> Result<CommandView, Seq<char>> {
    match needed_text(args, options, "--name"@, 256, false) {
        Err(m) => Err(m),
        Ok(name) => match needed_text(args, options, "--idempotency-key"@, 512, false) {
            Err(m) => Err(m),
            Ok(idempotency_key) => Ok(CommandView::CreateProject { cwd, name, idempotency_key, timeout_secs }),
        },
    }
}

pub open spec fn visibility_from(args: Seq<Option<Seq<char>>>, options: Map<Seq<char>, usize>) -> Result<
    ConversationVisibility,
    Seq<char>,
> {
    match needed_text(args, options, "--visibility"@, 16, false) {
        Err(m) => Err(m),
        Ok(v) => if v == "client"@ {
            Ok(ConversationVisibility::Client)
        } else if v == "hidden"@ {
            Ok(ConversationVisibility::Hidden)
        } else {
            Err("--visibility must be client or hidden"@)
        },
    }
}

/// The project that a run asks for.
pub open spec fn project_from(
    args: Seq<Option<Seq<char>>>,
    options: Map<Seq<char>, usize>,
    visibility: ConversationVisibility,
) -> Result<Option<Seq<char>>, Seq<char>> {
    match text_of(args, options, "--project"@, 512, false) {
        Err(m) => Err(m),
        Ok(project) => if (project is Some) == options.contains_key("--no-project"@) {
            Err("run requires exactly one of --project ID or --no-project"@)
        } else if visibility == ConversationVisibility::Hidden && project is Some {
            Err("hidden conversations cannot select --project"@)
        } else {
            Ok(project)
        },
    }
}

pub open spec fn prompt_from(args: Seq<Option<Seq<char>>>, options: Map<Seq<char>, usize>) -> Result<PromptView, Seq<char>> {
    match text_of(args, options, "--prompt"@, MAX_PROMPT_BYTES as nat, true) {
        Err(m) => Err(m),
        Ok(prompt) => match (prompt, at(options, "--prompt-file"@)) {
            (Some(t), None) => Ok(PromptView::Text(t)),
            (None, Some(i)) => Ok(PromptView::File(i)),
            _ => Err("run requires exactly one of --prompt or --prompt-file"@),
        },
    }
}

pub open spec fn run_from(
    args: Seq<Option<Seq<char>>>,
    options: Map<Seq<char>, usize>,
    cwd: Option<usize>,
    timeout_secs: u64,
) -> Result<CommandView, Seq<char>> {
    match visibility_from(args, options) {
        Err(m) => Err(m),
        Ok(visibility) => match project_from(args, options, visibility) {
            Err(m) => Err(m),
            Ok(project) => match text_of(args, options, "--model"@, 128, false) {
                Err(m) => Err(m),
                Ok(model) => match prompt_from(args, options) {
                    Err(m) => Err(m),
                    Ok(prompt) => Ok(CommandView::Run { cwd, prompt, model, visibility, project, timeout_secs }),
                },
            },
        },
    }
}

pub open spec fn command_from(
    args: Seq<Option<Seq<char>>>,
    c: Seq<char>,
    options: Map<Seq<char>, usize>,
    remote: bool,
) -> Result<CommandView, Seq<char>> {
    if c == "list"@ {
        Ok(CommandView::List)
    } else {
        match directory_from(options, remote) {
            Err(m) => Err(m),
            Ok(cwd) => match timeout_from(args, options) {
                Err(m) => Err(m),
                Ok(timeout_secs) => if c == "projects"@ {
                    Ok(CommandView::Projects { cwd, timeout_secs })
                } else if c == "create-project"@ {
                    create_from(args, options, cwd, timeout_secs)
                } else {
                    run_from(args, options, cwd, timeout_secs)
                },
            },
        }
    }
}

pub open spec fn all_name_chars(text: Seq<char>) -> bool {
    forall|i: int| 0 <= i < text.len() ==> is_name_char(#[trigger] text[i])
}

pub open spec fn gathered(args: Seq<Option<Seq<char>>>, c: Seq<char>, options: Map<Seq<char>, usize>) -> Result<
    ArgumentsView,
    Seq<char>,
> {
    if !options.contains_key("--config"@) {
        Err("missing required option --config"@)
    } else {
        match text_of(args, options, "--workspace"@, 128, false) {
            Err(m) => Err(m),
            Ok(workspace) => if workspace is Some && !is_id(workspace->0) {
                Err("--workspace must be a workspace identifier"@)
            } else {
                match text_of(args, options, "--harness"@, 64, false) {
                    Err(m) => Err(m),
                    Ok(harness) => if harness is Some && !all_name_chars(harness->0) {
                        Err("--harness must use ASCII letters, digits, '.', '_' or '-'"@)
                    } else {
                        match command_from(args, c, options, workspace is Some) {
                            Err(m) => Err(m),
                            Ok(command) => Ok(
                                ArgumentsView {
                                    config: options["--config"@],
                                    extensions: at(options, "--extensions"@),
                                    workspace,
                                    harness,
                                    command,
                                },
                            ),
                        }
                    },
                }
            },
        }
    }
}

/// What the arguments behind `harness` say; nothing if they ask for help.
pub open spec fn parsed(args: Seq<Option<Seq<char>>>) -> Result<Option<ArgumentsView>, Seq<char>> {
    if args.len() == 0 {
        Ok(None)
    } else {
        match args[0] {
            None => Err("Harness command must be valid UTF-8"@),
            Some(c) => if c == "help"@ || asks_help(c) {
                if args.len() == 1 { Ok(None) } else { Err("help does not accept additional arguments"@) }
            } else if !is_command(c) {
                Err("unknown Harness command: "@ + c)
            } else {
                match scanned(args, c, 1, Map::empty()) {
                    Err(m) => Err(m),
                    Ok(None) => Ok(None),
                    Ok(Some(options)) => match gathered(args, c, options) {
                        Err(m) => Err(m),
                        Ok(a) => Ok(Some(a)),
                    },
                }
            },
        }
    }
}

// Parsing.

/// A text that is shown as it is.
fn fail<T>(message: &str) -> (r: Result<T, String>)
    ensures
        r is Err,
        r->Err_0@ == message@,
{
    Err(copied(message))
}

fn permitted(c: &str, flag: &str) -> (r: bool)
    ensures
        r == allowed(c@, flag@),
{
    if same(flag, "--config") || same(flag, "--extensions") {
        return true;
    }
    if !same(c, "list") && (same(flag, "--harness") || same(flag, "--cwd") || same(flag, "--workspace") || same(
        flag,
        "--timeout-secs",
    )) {
        return true;
    }
    if same(c, "create-project") && (same(flag, "--name") || same(flag, "--idempotency-key")) {
        return true;
    }
    same(c, "run") && (same(flag, "--prompt") || same(flag, "--prompt-file") || same(flag, "--model") || same(
        flag,
        "--visibility",
    ) || same(flag, "--project") || same(flag, "--no-project"))
}

fn valueless(v: &Option<String>) -> (r: bool)
    ensures
        r == no_value(opt(*v)),
{
    match v {
        None => false,
        Some(t) => t.as_str().is_empty() || begins(t, "--"),
    }
}

/// Every option points into the arguments.
pub open spec fn within(options: Map<Seq<char>, usize>, count: nat) -> bool {
    forall|flag: Seq<char>| options.contains_key(flag) ==> (#[trigger] options[flag]) < count
}

fn scan(args: &Vec<Option<String>>, c: &str) -> (r: Result<Option<Table<usize>>, String>)
    requires
        args.len() > 0,
    ensures
        match r {
            Ok(None) => scanned(words(args@), c@, 1, Map::empty()) == Ok::<Option<Map<Seq<char>, usize>>, Seq<char>>(None),
            Ok(Some(t)) => t.wf() && within(t@, args@.len()) && scanned(words(args@), c@, 1, Map::empty()) == Ok::<
                Option<Map<Seq<char>, usize>>,
                Seq<char>,
            >(Some(t@)),
            Err(m) => scanned(words(args@), c@, 1, Map::empty()) == Err::<Option<Map<Seq<char>, usize>>, Seq<char>>(m@),
        },
{
    let ghost all = words(args@);
    let mut options: Table<usize> = Table::new();
    let mut i: usize = 1;
    while i < args.len()
        invariant
            1 <= i <= args.len(),
            all == words(args@),
            options.wf(),
            within(options@, args@.len()),
            scanned(all, c@, 1, Map::empty()) == scanned(all, c@, i as nat, options@),
        decreases args.len() - i,
    {
        assert(all[i as int] == opt(args@[i as int]));
        let flag = match &args[i] {
            None => {
                return fail("option names must be valid UTF-8");
            },
            Some(flag) => flag,
        };
        if (same(flag, "--help") || same(flag, "-h")) && i == 1 {
            if args.len() == 2 {
                return Ok(None);
            }
            return fail("help does not accept additional arguments");
        }
        if !permitted(c, flag) {
            let mut text = joined("unknown or inapplicable option for ", c);
            text.append(": ");
            text.append(flag.as_str());
            return Err(text);
        }
        if options.has(flag) {
            return Err(joined("duplicate option: ", flag));
        }
        if same(flag, "--no-project") {
            options.insert(flag.clone(), i);
            i = i + 1;
        } else if i + 1 >= args.len() {
            return Err(joined("missing value for ", flag));
        } else {
            assert(all[i as int + 1] == opt(args@[i as int + 1]));
            if valueless(&args[i + 1]) {
                return Err(joined("missing or empty value for ", flag));
            }
            options.insert(flag.clone(), i + 1);
            i = i + 2;
        }
    }
    Ok(Some(options))
}

/// Checks a text option.
pub fn validate_text(value: &str, label: &str, limit: usize, allow_controls: bool) -> (r: Result<(), String>)
    ensures
        match r {
            Ok(_) => !text_bad(value@, limit as nat, allow_controls),
            Err(m) => text_bad(value@, limit as nat, allow_controls) && m@ == text_message(
                label@,
                limit as nat,
                allow_controls,
            ),
        },
{
    if blank(value) || utf8_len(value) > limit || (!allow_controls && controlled(value)) {
        let mut text = joined(label, " must contain 1..=");
        text.append(decimal_text(limit as u64).as_str());
        text.append(" bytes of nonempty UTF-8");
        if allow_controls {
            text.append("");
        } else {
            text.append(" without control characters");
        }
        return Err(text);
    }
    Ok(())
}

fn optional_text(args: &Vec<Option<String>>, options: &Table<usize>, flag: &str, limit: usize, allow_controls: bool) -> (r: Result<
    Option<String>,
    String,
>)
    requires
        options.wf(),
        within(options@, args@.len()),
    ensures
        match r {
            Ok(v) => text_of(words(args@), options@, flag@, limit as nat, allow_controls) == Ok::<
                Option<Seq<char>>,
                Seq<char>,
            >(opt(v)),
            Err(m) => text_of(words(args@), options@, flag@, limit as nat, allow_controls) == Err::<
                Option<Seq<char>>,
                Seq<char>,
            >(m@),
        },
{
    match options.get(flag) {
        None => Ok(None),
        Some(i) => {
            let k: usize = *i;
            assert(words(args@)[k as int] == opt(args@[k as int]));
            match &args[k] {
                None => Err(joined(flag, " must be valid UTF-8")),
                Some(v) => match validate_text(v, flag, limit, allow_controls) {
                    Err(m) => Err(m),
                    Ok(_) => Ok(Some(v.clone())),
                },
            }
        },
    }
}

fn required_text(args: &Vec<Option<String>>, options: &Table<usize>, flag: &str, limit: usize, allow_controls: bool) -> (r: Result<
    String,
    String,
>)
    requires
        options.wf(),
        within(options@, args@.len()),
    ensures
        match r {
            Ok(v) => needed_text(words(args@), options@, flag@, limit as nat, allow_controls) == Ok::<Seq<char>, Seq<char>>(v@),
            Err(m) => needed_text(words(args@), options@, flag@, limit as nat, allow_controls) == Err::<Seq<char>, Seq<char>>(
                m@,
            ),
        },
{
    match optional_text(args, options, flag, limit, allow_controls) {
        Err(m) => Err(m),
        Ok(None) => Err(joined("missing required option ", flag)),
        Ok(Some(v)) => Ok(v),
    }
}

/// The number that at most four digits stand for.
fn short_number(text: &Vec<char>) -> (r: Option<u64>)
    ensures
        match r {
            Some(n) => 0 < text@.len() <= 4 && digits_only(text@) && n == number_of(text@),
            None => text@.len() == 0 || text@.len() > 4 || !digits_only(text@),
        },
{
    if text.len() == 0 || text.len() > 4 {
        return None;
    }
    let mut n: u64 = 0;
    let mut bound: u64 = 1;
    let mut i: usize = 0;
    assert(text@.subrange(0, 0) =~= Seq::<char>::empty());
    while i < text.len()
        invariant
            0 < text.len() <= 4,
            i <= text.len(),
            n == number_of(text@.subrange(0, i as int)),
            n < bound,
            i == 0 ==> bound == 1,
            i == 1 ==> bound == 10,
            i == 2 ==> bound == 100,
            i == 3 ==> bound == 1000,
            i == 4 ==> bound == 10000,
            forall|j: int| 0 <= j < i ==> is_ascii_digit(#[trigger] text@[j]),
        decreases text.len() - i,
    {
        let c = text[i];
        if !ascii_digit(c) {
            assert(!is_ascii_digit(text@[i as int]));
            return None;
        }
        proof {
            digit_range(c);
        }
        let d: u64 = c as u64 - '0' as u64;
        proof {
            let now = text@.subrange(0, i + 1);
            assert(now.drop_last() =~= text@.subrange(0, i as int));
            assert(now.last() == c);
        }
        n = n * 10 + d;
        bound = bound * 10;
        i = i + 1;
    }
    assert(text@.subrange(0, i as int) =~= text@);
    Some(n)
}

fn parse_timeout(args: &Vec<Option<String>>, options: &Table<usize>) -> (r: Result<u64, String>)
    requires
        options.wf(),
        within(options@, args@.len()),
    ensures
        match r {
            Ok(n) => timeout_from(words(args@), options@) == Ok::<u64, Seq<char>>(n),
            Err(m) => timeout_from(words(args@), options@) == Err::<u64, Seq<char>>(m@),
        },
{
    match options.get("--timeout-secs") {
        None => Ok(DEFAULT_TIMEOUT_SECS),
        Some(i) => {
            let k: usize = *i;
            assert(words(args@)[k as int] == opt(args@[k as int]));
            match &args[k] {
                None => fail("--timeout-secs must be valid UTF-8"),
                Some(v) => {
                    let list = characters(v);
                    proof {
                        if digits_only(v@) {
                            digits_are_bytes(v@);
                        }
                    }
                    match short_number(&list) {
                        None => fail("--timeout-secs must be an integer from 1 to 1800"),
                        Some(n) => if n < 1 || n > MAX_TIMEOUT_SECS {
                            fail("--timeout-secs must be between 1 and 1800")
                        } else {
                            Ok(n)
                        },
                    }
                },
            }
        },
    }
}

fn position(options: &Table<usize>, flag: &str) -> (r: Option<usize>)
    requires
        options.wf(),
    ensures
        r == at(options@, flag@),
{
    match options.get(flag) {
        None => None,
        Some(i) => Some(*i),
    }
}

fn parse_directory(options: &Table<usize>, remote: bool) -> (r: Result<Option<usize>, String>)
    requires
        options.wf(),
    ensures
        match r {
            Ok(v) => directory_from(options@, remote) == Ok::<Option<usize>, Seq<char>>(v),
            Err(m) => directory_from(options@, remote) == Err::<Option<usize>, Seq<char>>(m@),
        },
{
    if remote {
        if options.has("--cwd") {
            return fail("choose --workspace ID or --cwd PATH");
        }
        return Ok(None);
    }
    match options.get("--cwd") {
        None => fail("missing required option --cwd"),
        Some(i) => Ok(Some(*i)),
    }
}

fn parse_create(args: &Vec<Option<String>>, options: &Table<usize>, cwd: Option<usize>, timeout_secs: u64) -> (r: Result<
    HarnessCommand,
    String,
>)
    requires
        options.wf(),
        within(options@, args@.len()),
    ensures
        match r {
            Ok(v) => create_from(words(args@), options@, cwd, timeout_secs) == Ok::<CommandView, Seq<char>>(v@),
            Err(m) => create_from(words(args@), options@, cwd, timeout_secs) == Err::<CommandView, Seq<char>>(m@),
        },
{
    match required_text(args, options, "--name", 256, false) {
        Err(m) => Err(m),
        Ok(name) => match required_text(args, options, "--idempotency-key", 512, false) {
            Err(m) => Err(m),
            Ok(idempotency_key) => Ok(HarnessCommand::CreateProject { cwd, name, idempotency_key, timeout_secs }),
        },
    }
}

fn parse_run(args: &Vec<Option<String>>, options: &Table<usize>, cwd: Option<usize>, timeout_secs: u64) -> (r: Result<
    HarnessCommand,
    String,
>)
    requires
        options.wf(),
        within(options@, args@.len()),
    ensures
        match r {
            Ok(v) => run_from(words(args@), options@, cwd, timeout_secs) == Ok::<CommandView, Seq<char>>(v@),
            Err(m) => run_from(words(args@), options@, cwd, timeout_secs) == Err::<CommandView, Seq<char>>(m@),
        },
{
    let visibility = match required_text(args, options, "--visibility", 16, false) {
        Err(m) => {
            return Err(m);
        },
        Ok(v) => if same(&v, "client") {
            ConversationVisibility::Client
        } else if same(&v, "hidden") {
            ConversationVisibility::Hidden
        } else {
            return fail("--visibility must be client or hidden");
        },
    };
    let project = match optional_text(args, options, "--project", 512, false) {
        Err(m) => {
            return Err(m);
        },
        Ok(v) => v,
    };
    if project.is_some() == options.has("--no-project") {
        return fail("run requires exactly one of --project ID or --no-project");
    }
    if visibility == ConversationVisibility::Hidden && project.is_some() {
        return fail("hidden conversations cannot select --project");
    }
    let model = match optional_text(args, options, "--model", 128, false) {
        Err(m) => {
            return Err(m);
        },
        Ok(v) => v,
    };
    let prompt = match optional_text(args, options, "--prompt", MAX_PROMPT_BYTES, true) {
        Err(m) => {
            return Err(m);
        },
        Ok(v) => v,
    };
    let file = position(options, "--prompt-file");
    let prompt = match (prompt, file) {
        (Some(t), None) => Prompt::Text(t),
        (None, Some(i)) => Prompt::File(i),
        _ => {
            return fail("run requires exactly one of --prompt or --prompt-file");
        },
    };
    Ok(HarnessCommand::Run { cwd, prompt, model, visibility, project, timeout_secs })
}

fn parse_command(args: &Vec<Option<String>>, c: &str, options: &Table<usize>, remote: bool) -> (r: Result<HarnessCommand, String>)
    requires
        options.wf(),
        within(options@, args@.len()),
    ensures
        match r {
            Ok(v) => command_from(words(args@), c@, options@, remote) == Ok::<CommandView, Seq<char>>(v@),
            Err(m) => command_from(words(args@), c@, options@, remote) == Err::<CommandView, Seq<char>>(m@),
        },
{
    if same(c, "list") {
        return Ok(HarnessCommand::List);
    }
    let cwd = match parse_directory(options, remote) {
        Err(m) => {
            return Err(m);
        },
        Ok(v) => v,
    };
    let timeout_secs = match parse_timeout(args, options) {
        Err(m) => {
            return Err(m);
        },
        Ok(n) => n,
    };
    if same(c, "projects") {
        Ok(HarnessCommand::Projects { cwd, timeout_secs })
    } else if same(c, "create-project") {
        parse_create(args, options, cwd, timeout_secs)
    } else {
        parse_run(args, options, cwd, timeout_secs)
    }
}

fn name_chars(text: &str) -> (r: bool)
    ensures
        r == all_name_chars(text@),
{
    for c in iter: text.chars()
        invariant
            iter.seq() == text@,
            forall|i: int| 0 <= i < iter.index() ==> is_name_char(#[trigger] text@[i]),
    {
        if !name_char(c) {
            assert(!is_name_char(text@[iter.index()]));
            return false;
        }
    }
    true
}

fn gather(args: &Vec<Option<String>>, c: &str, options: &Table<usize>) -> (r: Result<HarnessArguments, String>)
    requires
        options.wf(),
        within(options@, args@.len()),
    ensures
        match r {
            Ok(v) => gathered(words(args@), c@, options@) == Ok::<ArgumentsView, Seq<char>>(v@),
            Err(m) => gathered(words(args@), c@, options@) == Err::<ArgumentsView, Seq<char>>(m@),
        },
{
    let config = match options.get("--config") {
        None => {
            return fail("missing required option --config");
        },
        Some(i) => *i,
    };
    let extensions = position(options, "--extensions");
    let workspace = match optional_text(args, options, "--workspace", 128, false) {
        Err(m) => {
            return Err(m);
        },
        Ok(v) => v,
    };
    if let Some(id) = &workspace {
        if !valid_id(id) {
            return fail("--workspace must be a workspace identifier");
        }
    }
    let harness = match optional_text(args, options, "--harness", 64, false) {
        Err(m) => {
            return Err(m);
        },
        Ok(v) => v,
    };
    if let Some(id) = &harness {
        if !name_chars(id) {
            return fail("--harness must use ASCII letters, digits, '.', '_' or '-'");
        }
    }
    match parse_command(args, c, options, workspace.is_some()) {
        Err(m) => Err(m),
        Ok(command) => Ok(HarnessArguments { config, extensions, workspace, harness, command }),
    }
}

/// Parses only the arguments following `harness`. Invalid input is rejected
/// before configuration loading, executable probing, or provider calls.
pub fn parse_harness(args: &Vec<Option<String>>) -> (r: Result<Option<HarnessArguments>, String>)
    ensures
        match r {
            Ok(None) => parsed(words(args@)) == Ok::<Option<ArgumentsView>, Seq<char>>(None),
            Ok(Some(a)) => parsed(words(args@)) == Ok::<Option<ArgumentsView>, Seq<char>>(Some(a@)),
            Err(m) => parsed(words(args@)) == Err::<Option<ArgumentsView>, Seq<char>>(m@),
        },
{
    if args.len() == 0 {
        return Ok(None);
    }
    assert(words(args@)[0] == opt(args@[0]));
    let c = match &args[0] {
        None => {
            return fail("Harness command must be valid UTF-8");
        },
        Some(c) => c,
    };
    if same(c, "help") || same(c, "--help") || same(c, "-h") {
        if args.len() == 1 {
            return Ok(None);
        }
        return fail("help does not accept additional arguments");
    }
    if !(same(c, "list") || same(c, "projects") || same(c, "create-project") || same(c, "run")) {
        return Err(joined("unknown Harness command: ", c));
    }
    match scan(args, c) {
        Err(m) => Err(m),
        Ok(None) => Ok(None),
        Ok(Some(options)) => match gather(args, c, &options) {
            Err(m) => Err(m),
            Ok(a) => Ok(Some(a)),
        },
    }
}

/// Checks a prompt file by what the system says of it.
pub fn check_prompt_file(regular: bool, len: u64) -> (r: Result<(), String>)
    ensures
        match r {
            Ok(_) => regular && len <= MAX_PROMPT_BYTES,
            Err(m) => if !regular {
                m@ == "--prompt-file must be a regular file"@
            } else {
                len > MAX_PROMPT_BYTES && m@ == "--prompt-file exceeds 65536 bytes"@
            },
        },
{
    if !regular {
        return fail("--prompt-file must be a regular file");
    }
    if len > MAX_PROMPT_BYTES as u64 {
        return fail("--prompt-file exceeds 65536 bytes");
    }
    Ok(())
}

/// Checks the text of a prompt file; nothing if it is not UTF-8.
pub fn read_prompt(text: Option<String>) -> (r: Result<String, String>)
    ensures
        match r {
            Ok(t) => text is Some && t@ == text->0@ && !text_bad(t@, MAX_PROMPT_BYTES as nat, true),
            Err(m) => match text {
                None => m@ == "--prompt-file must be valid UTF-8"@,
                Some(t) => text_bad(t@, MAX_PROMPT_BYTES as nat, true) && m@ == text_message(
                    "--prompt-file"@,
                    MAX_PROMPT_BYTES as nat,
                    true,
                ),
            },
        },
{
    match text {
        None => fail("--prompt-file must be valid UTF-8"),
        Some(t) => match validate_text(&t, "--prompt-file", MAX_PROMPT_BYTES, true) {
            Err(m) => Err(m),
            Ok(_) => Ok(t),
        },
    }
}

} // verus!
