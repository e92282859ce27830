//! Bounded command-line syntax for the trusted approval workflow.
use super::views::{error_json, error_tree};
use super::words;
use crate::json::values::{empty_object, object, opt_json, text_or_null, text_value, with};
use crate::json::{group_json, trees, with_member, Json, Tree};
use crate::recovery::workflow::{RepairExecutionContext, RepairResult, RepairStatus};
use crate::table::Table;
use crate::text::{
    blank, byte_len, contains, copied, debug_quoted, debug_quoting, decimal, decimal_text, is_blank, joined, less, opt,
    same, utf8_len,
};
use vstd::prelude::*;

verus! {

broadcast use group_json;

pub const HELP: &'static str = "Approval-controlled repair (JSON output):
  recuvora repair run --config PATH --task ID --prompt TEXT
  recuvora repair inspect --config PATH [--request ID]
  recuvora repair approve --config PATH --request ID --reason TEXT
  recuvora repair deny --config PATH --request ID --reason TEXT
  recuvora repair revoke --config PATH --request ID --reason TEXT
  recuvora repair apply --config PATH --request ID
  recuvora repair reconcile --config PATH --request ID

Use an external repair configuration with an explicit target, file allowlist,
delegated approval policy, and stable state directory. Run uses hidden execution
and approval conversations. Approve records a decision; apply executes that exact
stored operation once. Reconcile checks current content and never repeats writes.
Only existing UTF-8 text files up to 16 KiB are supported, on native Windows.
No shell, publishing, desktop operation, or business-health verification.
";

/// More arguments than this are not looked at.
pub const MAX_ARGUMENTS: usize = 20;

/// Parsed arguments; `config` is a position.
pub struct Arguments {
    pub command: String,
    pub config: usize,
    pub task: Option<String>,
    pub prompt: Option<String>,
    pub request: Option<String>,
    pub reason: Option<String>,
}

pub struct ArgumentsView {
    pub command: Seq<char>,
    pub config: usize,
    pub task: Option<Seq<char>>,
    pub prompt: Option<Seq<char>>,
    pub request: Option<Seq<char>>,
    pub reason: Option<Seq<char>>,
}

impl View for Arguments {
    type V = ArgumentsView;

    open spec fn view(&self) -> ArgumentsView {
        ArgumentsView {
            command: self.command@,
            config: self.config,
            task: opt(self.task),
            prompt: opt(self.prompt),
            request: opt(self.request),
            reason: opt(self.reason),
        }
    }
}

/// Why arguments are refused.
pub enum Refusal {
    Text(Seq<char>),
    /// Options that the command does not have.
    Unsupported(Set<Seq<char>>),
}

/// Every element of the set once, in order.
pub open spec fn lists(list: Seq<Seq<char>>, keys: Set<Seq<char>>) -> bool {
    &&& forall|a: int, b: int| 0 <= a < b < list.len() ==> less(#[trigger] list[a], #[trigger] list[b])
    &&& forall|k: Seq<char>| #[trigger] list.contains(k) <==> keys.contains(k)
}

/// A list of texts as debug formatting shows it.
pub open spec fn listed_quoted(list: Seq<Seq<char>>) -> Seq<char> {
    "["@ + quoted_items(list) + "]"@
}

pub open spec fn quoted_items(list: Seq<Seq<char>>) -> Seq<char>
    decreases list.len(),
{
    if list.len() == 0 {
        Seq::empty()
    } else if list.len() == 1 {
        debug_quoted(list[0])
    } else {
        quoted_items(list.drop_last()) + ", "@ + debug_quoted(list.last())
    }
}

/// The text that shows a refusal.
pub open spec fn shows(message: Seq<char>, refusal: Refusal) -> bool {
    match refusal {
        Refusal::Text(t) => message == t,
        Refusal::Unsupported(keys) => exists|list: Seq<Seq<char>>|
            lists(list, keys) && message == "unsupported option(s): "@ + #[trigger] listed_quoted(list),
    }
}

pub open spec fn is_command(c: Seq<char>) -> bool {
    c == "run"@ || c == "inspect"@ || c == "approve"@ || c == "deny"@ || c == "revoke"@ || c == "apply"@ || c == "reconcile"@
}

/// The options from `i` on, each with the position of its value.
pub open spec fn paired(args: Seq<Option<Seq<char>>>, i: nat, options: Map<Seq<char>, usize>) -> Result<
    Map<Seq<char>, usize>,
    Refusal,
>
    decreases args.len() - i,
{
    if i + 1 >= args.len() {
        Ok(options)
    } else {
        match args[i as int] {
            None => Err(Refusal::Text("option must be UTF-8"@)),
            Some(key) => if options.contains_key(key) {
                Err(Refusal::Text("duplicate option"@))
            } else {
                paired(args, i + 2, options.insert(key, (i + 1) as usize))
            },
        }
    }
}

pub open spec fn value_bad(v: Seq<char>, limit: nat) -> bool {
    is_blank(v) || byte_len(v) > limit || v.contains('\0')
}

/// The text of an option.
pub open spec fn text_of(
    args: Seq<Option<Seq<char>>>,
    options: Map<Seq<char>, usize>,
    flag: Seq<char>,
    required: bool,
    limit: nat,
) -> Result<Option<Seq<char>>, Refusal> {
    if !options.contains_key(flag) {
        if required { Err(Refusal::Text(flag + " required"@)) } else { Ok(None) }
    } else {
        match args[options[flag] as int] {
            None => Err(Refusal::Text(flag + " must be UTF-8"@)),
            Some(v) => if value_bad(v, limit) {
                Err(
                    Refusal::Text(
                        flag + " must contain 1.."@ + decimal(limit) + " nonempty bytes without NUL"@,
                    ),
                )
            } else {
                Ok(Some(v))
            },
        }
    }
}

pub open spec fn reasoned(c: Seq<char>) -> bool {
    c == "approve"@ || c == "deny"@ || c == "revoke"@
}

/// The options that a command takes.
pub open spec fn taken(c: Seq<char>) -> Set<Seq<char>> {
    let base = set!["--config"@];
    if c == "run"@ {
        base.insert("--task"@).insert("--prompt"@)
    } else if reasoned(c) {
        base.insert("--request"@).insert("--reason"@)
    } else {
        base.insert("--request"@)
    }
}

pub open spec fn texts_from(args: Seq<Option<Seq<char>>>, c: Seq<char>, options: Map<Seq<char>, usize>) -> Result<
    ArgumentsView,
    Refusal,
> {
    let config = options["--config"@];
    if c == "run"@ {
        match text_of(args, options, "--task"@, true, 128) {
            Err(f) => Err(f),
            Ok(task) => match text_of(args, options, "--prompt"@, true, 8192) {
                Err(f) => Err(f),
                Ok(prompt) => Ok(ArgumentsView { command: c, config, task, prompt, request: None, reason: None }),
            },
        }
    } else {
        match text_of(args, options, "--request"@, c != "inspect"@, 512) {
            Err(f) => Err(f),
            Ok(request) => if reasoned(c) {
                match text_of(args, options, "--reason"@, true, 8192) {
                    Err(f) => Err(f),
                    Ok(reason) => Ok(ArgumentsView { command: c, config, task: None, prompt: None, request, reason }),
                }
            } else {
                Ok(ArgumentsView { command: c, config, task: None, prompt: None, request, reason: None })
            },
        }
    }
}

pub open spec fn gathered(args: Seq<Option<Seq<char>>>, c: Seq<char>, options: Map<Seq<char>, usize>) -> Result<
    ArgumentsView,
    Refusal,
> {
    if !options.contains_key("--config"@) {
        Err(Refusal::Text("--config required"@))
    } else {
        match texts_from(args, c, options) {
            Err(f) => Err(f),
            Ok(a) => if options.dom().subset_of(taken(c)) {
                Ok(a)
            } else {
                Err(Refusal::Unsupported(options.dom().difference(taken(c))))
            },
        }
    }
}

pub open spec fn looked_at(args: Seq<Option<Seq<char>>>) -> Seq<Option<Seq<char>>> {
    if args.len() > MAX_ARGUMENTS { args.subrange(0, MAX_ARGUMENTS as int) } else { args }
}

/// What the arguments behind `repair` say; nothing if they ask for help.
pub open spec fn parsed(all: Seq<Option<Seq<char>>>) -> Result<Option<ArgumentsView>, Refusal> {
    let args = looked_at(all);
    if args.len() == 0 || (args.len() == 1 && args[0] == Some("--help"@)) {
        Ok(None)
    } else {
        match args[0] {
            None => Err(Refusal::Text("command must be UTF-8"@)),
            Some(c) => if !is_command(c) || args.len() % 2 != 1 {
                Err(Refusal::Text("invalid repair command or option pairs; see repair --help"@))
            } else {
                match paired(args, 1, Map::empty()) {
                    Err(f) => Err(f),
                    Ok(options) => match gathered(args, c, options) {
                        Err(f) => Err(f),
                        Ok(a) => Ok(Some(a)),
                    },
                }
            },
        }
    }
}

fn pair(args: &Vec<Option<String>>) -> (r: Result<Table<usize>, String>)
    requires
        0 < args.len() <= MAX_ARGUMENTS,
    ensures
        match r {
            Ok(t) => t.wf() && super::within(t@, args@.len()) && paired(words(args@), 1, Map::empty()) == Ok::<
                Map<Seq<char>, usize>,
                Refusal,
            >(t@),
            Err(m) => paired(words(args@), 1, Map::empty()) == Err::<Map<Seq<char>, usize>, Refusal>(Refusal::Text(m@)),
        },
{
    let ghost all = words(args@);
    let mut options: Table<usize> = Table::new();
    let mut i: usize = 1;
    while i + 1 < args.len()
        invariant
            1 <= i <= args.len() + 1,
            args.len() <= MAX_ARGUMENTS,
            all == words(args@),
            options.wf(),
            super::within(options@, args@.len()),
            paired(all, 1, Map::empty()) == paired(all, i as nat, options@),
        decreases args.len() - i,
    {
        assert(all[i as int] == opt(args@[i as int]));
        match &args[i] {
            None => {
                return Err(copied("option must be UTF-8"));
            },
            Some(key) => {
                if options.has(key) {
                    return Err(copied("duplicate option"));
                }
                options.insert(key.clone(), i + 1);
            },
        }
        i = i + 2;
    }
    Ok(options)
}

fn text(args: &Vec<Option<String>>, options: &Table<usize>, flag: &str, required: bool, limit: usize) -> (r: Result<
    Option<String>,
    String,
>)
    requires
        options.wf(),
        super::within(options@, args@.len()),
    ensures
        match r {
            Ok(v) => text_of(words(args@), options@, flag@, required, limit as nat) == Ok::<Option<Seq<char>>, Refusal>(
                opt(v),
            ),
            Err(m) => text_of(words(args@), options@, flag@, required, limit as nat) == Err::<Option<Seq<char>>, Refusal>(
                Refusal::Text(m@),
            ),
        },
{
    match options.get(flag) {
        None => if required {
            Err(joined(flag, " required"))
        } else {
            Ok(None)
        },
        Some(i) => {
            let k: usize = *i;
            assert(words(args@)[k as int] == opt(args@[k as int]));
            match &args[k] {
                None => Err(joined(flag, " must be UTF-8")),
                Some(v) => if blank(v) || utf8_len(v) > limit || contains(v, '\0') {
                    let mut m = joined(flag, " must contain 1..");
                    m.append(decimal_text(limit as u64).as_str());
                    m.append(" nonempty bytes without NUL");
                    Err(m)
                } else {
                    Ok(Some(v.clone()))
                },
            }
        },
    }
}

fn gather_texts(args: &Vec<Option<String>>, c: &str, options: &Table<usize>, config: usize) -> (r: Result<Arguments, String>)
    requires
        options.wf(),
        super::within(options@, args@.len()),
        options@.contains_key("--config"@),
        config == options@["--config"@],
    ensures
        match r {
            Ok(a) => texts_from(words(args@), c@, options@) == Ok::<ArgumentsView, Refusal>(a@),
            Err(m) => texts_from(words(args@), c@, options@) == Err::<ArgumentsView, Refusal>(Refusal::Text(m@)),
        },
{
    if same(c, "run") {
        return match text(args, options, "--task", true, 128) {
            Err(m) => Err(m),
            Ok(task) => match text(args, options, "--prompt", true, 8192) {
                Err(m) => Err(m),
                Ok(prompt) => Ok(Arguments { command: copied(c), config, task, prompt, request: None, reason: None }),
            },
        };
    }
    let request = match text(args, options, "--request", !same(c, "inspect"), 512) {
        Err(m) => {
            return Err(m);
        },
        Ok(v) => v,
    };
    if same(c, "approve") || same(c, "deny") || same(c, "revoke") {
        match text(args, options, "--reason", true, 8192) {
            Err(m) => Err(m),
            Ok(reason) => Ok(Arguments { command: copied(c), config, task: None, prompt: None, request, reason }),
        }
    } else {
        Ok(Arguments { command: copied(c), config, task: None, prompt: None, request, reason: None })
    }
}

fn quote_all(list: &Table<usize>) -> (r: String)
    requires
        list.wf(),
    ensures
        exists|keys: Seq<Seq<char>>| lists(keys, list@.dom()) && r@ == #[trigger] listed_quoted(keys),
{
    let ghost keys = list.listed().map_values(|e: (String, usize)| e.0@);
    let mut items = String::new();
    let mut i: usize = 0;
    assert(keys.subrange(0, 0) =~= Seq::<Seq<char>>::empty());
    while i < list.len()
        invariant
            i <= list.listed().len(),
            list.wf(),
            keys == list.listed().map_values(|e: (String, usize)| e.0@),
            items@ == quoted_items(keys.subrange(0, i as int)),
        decreases list.listed().len() - i,
    {
        proof {
            let now = keys.subrange(0, i + 1);
            assert(now.drop_last() =~= keys.subrange(0, i as int));
            assert(now.last() == list.listed()[i as int].0@);
        }
        if i > 0 {
            items.append(", ");
        }
        items.append(debug_quoting(list.key(i)).as_str());
        assert(items@ =~= quoted_items(keys.subrange(0, i + 1)));
        i = i + 1;
    }
    assert(keys.subrange(0, i as int) =~= keys);
    let mut r = joined("[", &items);
    r.append("]");
    proof {
        assert forall|a: int, b: int| 0 <= a < b < keys.len() implies less(#[trigger] keys[a], #[trigger] keys[b]) by {
            assert(less(list.listed()[a].0@, list.listed()[b].0@));
        }
        assert forall|k: Seq<char>| #[trigger] keys.contains(k) <==> list@.dom().contains(k) by {
            if keys.contains(k) {
                let j = choose|j: int| 0 <= j < keys.len() && keys[j] == k;
                list.entry_at(j);
            }
            if list@.dom().contains(k) {
                let j = list.entry_of(k);
                assert(keys[j] == k);
            }
        }
        assert(lists(keys, list@.dom()));
        assert(r@ == listed_quoted(keys));
    }
    r
}

fn gather(args: &Vec<Option<String>>, c: &str, options: Table<usize>) -> (r: Result<Arguments, String>)
    requires
        options.wf(),
        super::within(options@, args@.len()),
    ensures
        match r {
            Ok(a) => gathered(words(args@), c@, options@) == Ok::<ArgumentsView, Refusal>(a@),
            Err(m) => gathered(words(args@), c@, options@) is Err && shows(
                m@,
                gathered(words(args@), c@, options@)->Err_0,
            ),
        },
{
    let config = match options.get("--config") {
        None => {
            return Err(copied("--config required"));
        },
        Some(i) => *i,
    };
    let found = match gather_texts(args, c, &options, config) {
        Err(m) => {
            return Err(m);
        },
        Ok(a) => a,
    };
    let ghost all = options@;
    let mut rest = options;
    rest.remove("--config");
    if same(c, "run") {
        rest.remove("--task");
        rest.remove("--prompt");
    } else {
        rest.remove("--request");
        if same(c, "approve") || same(c, "deny") || same(c, "revoke") {
            rest.remove("--reason");
        }
    }
    assert(rest@.dom() =~= all.dom().difference(taken(c@)));
    if rest.len() > 0 {
        proof {
            rest.entry_at(0);
            let k = rest.listed()[0].0@;
            assert(all.dom().contains(k) && !taken(c@).contains(k));
        }
        let keys = quote_all(&rest);
        return Err(joined("unsupported option(s): ", &keys));
    }
    proof {
        assert forall|k: Seq<char>| all.dom().contains(k) implies taken(c@).contains(k) by {
            if !taken(c@).contains(k) {
                assert(rest@.dom().contains(k));
                let j = rest.entry_of(k);
                assert(false);
            }
        }
    }
    Ok(found)
}

/// Parses only the arguments following `repair`.
pub fn parse(all: &Vec<Option<String>>) -> (r: Result<Option<Arguments>, String>)
    ensures
        match r {
            Ok(None) => parsed(words(all@)) == Ok::<Option<ArgumentsView>, Refusal>(None),
            Ok(Some(a)) => parsed(words(all@)) == Ok::<Option<ArgumentsView>, Refusal>(Some(a@)),
            Err(m) => parsed(words(all@)) is Err && shows(m@, parsed(words(all@))->Err_0),
        },
{
    let mut args: Vec<Option<String>> = Vec::new();
    let mut i: usize = 0;
    while i < all.len() && i < MAX_ARGUMENTS
        invariant
            i <= all.len(),
            i <= MAX_ARGUMENTS,
            args.len() == i,
            forall|j: int| 0 <= j < i ==> opt(#[trigger] args@[j]) == opt(all@[j]),
        decreases all.len() - i,
    {
        args.push(
            match &all[i] {
                Some(t) => Some(t.clone()),
                None => None,
            },
        );
        i = i + 1;
    }
    assert(words(args@) =~= looked_at(words(all@)));
    if args.len() == 0 {
        return Ok(None);
    }
    assert(words(args@)[0] == opt(args@[0]));
    let c = match &args[0] {
        None => {
            return Err(copied("command must be UTF-8"));
        },
        Some(c) => c.clone(),
    };
    if args.len() == 1 && same(&c, "--help") {
        return Ok(None);
    }
    if !(same(&c, "run") || same(&c, "inspect") || same(&c, "approve") || same(&c, "deny") || same(&c, "revoke") || same(
        &c,
        "apply",
    ) || same(&c, "reconcile")) || args.len() % 2 != 1 {
        return Err(copied("invalid repair command or option pairs; see repair --help"));
    }
    match pair(&args) {
        Err(m) => Err(m),
        Ok(options) => match gather(&args, &c, options) {
            Err(m) => Err(m),
            Ok(a) => Ok(Some(a)),
        },
    }
}

// Results.

pub open spec fn status_text(s: RepairStatus) -> Seq<char> {
    match s {
        RepairStatus::Unknown => "unknown"@,
        RepairStatus::WaitingHuman => "waiting_human"@,
        RepairStatus::Blocked => "blocked"@,
        RepairStatus::Canceled => "canceled"@,
        RepairStatus::Failed => "failed"@,
        RepairStatus::Completed => "completed"@,
    }
}

pub fn status_name(s: RepairStatus) -> (r: &'static str)
    ensures
        r@ == status_text(s),
{
    match s {
        RepairStatus::Unknown => "unknown",
        RepairStatus::WaitingHuman => "waiting_human",
        RepairStatus::Blocked => "blocked",
        RepairStatus::Canceled => "canceled",
        RepairStatus::Failed => "failed",
        RepairStatus::Completed => "completed",
    }
}

pub open spec fn context_tree(c: Option<RepairExecutionContext>) -> Tree {
    match c {
        None => Tree::Null,
        Some(c) => with_member(
            with_member(
                with_member(empty_object(), "harness_id"@, Tree::Text(c.harness_id@)),
                "thread_id"@,
                Tree::Text(c.thread_id@),
            ),
            "session_id"@,
            Tree::Text(c.session_id@),
        ),
    }
}

/// The shared representation of a workflow's facts. Business health is never claimed.
pub open spec fn result_tree(x: RepairResult, operations: Seq<Tree>) -> Tree {
    let a = with_member(empty_object(), "status"@, Tree::Text(status_text(x.status)));
    let b = with_member(a, "task_id"@, Tree::Text(x.task_id@));
    let c = with_member(b, "final_response"@, text_or_null(opt(x.final_response)));
    let d = with_member(
        c,
        "harness_error"@,
        match x.harness_error {
            None => Tree::Null,
            Some(e) => error_tree(e@),
        },
    );
    let e = with_member(d, "operations"@, Tree::Array(operations));
    let f = with_member(e, "execution_context"@, context_tree(x.execution_context));
    let g = with_member(f, "business_verified"@, Tree::Bool(false));
    with_member(g, "auto_retry"@, Tree::Bool(false))
}

/// Shows a workflow's facts; `operations` are its approvals as they are encoded.
pub fn result_json(x: &RepairResult, operations: Vec<Json>) -> (r: Json)
    ensures
        r@ == result_tree(*x, trees(operations@)),
{
    let error = match &x.harness_error {
        None => Json::Null,
        Some(e) => error_json(e),
    };
    let context = match &x.execution_context {
        None => Json::Null,
        Some(c) => with(
            with(
                with(object(), "harness_id", text_value(&c.harness_id)),
                "thread_id",
                text_value(&c.thread_id),
            ),
            "session_id",
            text_value(&c.session_id),
        ),
    };
    let a = with(object(), "status", text_value(status_name(x.status)));
    let b = with(a, "task_id", text_value(&x.task_id));
    let c = with(b, "final_response", opt_json(&x.final_response));
    let d = with(c, "harness_error", error);
    let e = with(d, "operations", Json::Array(operations));
    let f = with(e, "execution_context", context);
    let g = with(f, "business_verified", Json::Bool(false));
    with(g, "auto_retry", Json::Bool(false))
}

} // verus!
