//! What the commands make of their arguments: every value is the one behind its flag, no flag
//! stands twice, and none that its command does not know.
use super::repair::{paired, parsed as repair_parsed};
use super::{number_of, parsed, scanned, CommandView, PromptView};
use crate::harnesses::ConversationVisibility;
use crate::text::{byte_len, is_blank, starts_with};
use vstd::prelude::*;

verus! {

/// Whether a flag stands right before that position.
pub open spec fn behind(args: Seq<Option<Seq<char>>>, flag: Seq<char>, at: int) -> bool {
    2 <= at < args.len() && args[at - 1] == Some(flag)
}

/// Whether a value stands right behind its flag.
pub open spec fn given(args: Seq<Option<Seq<char>>>, flag: Seq<char>, value: Seq<char>) -> bool {
    exists|at: int| #[trigger] behind(args, flag, at) && args[at] == Some(value)
}

/// The options that were read so far stand where their flags are.
spec fn read(args: Seq<Option<Seq<char>>>, options: Map<Seq<char>, usize>) -> bool {
    forall|flag: Seq<char>| #[trigger]
        options.contains_key(flag) ==> if flag == "--no-project"@ {
            1 <= options[flag] < args.len() && args[options[flag] as int] == Some(flag)
        } else {
            behind(args, flag, options[flag] as int)
        }
}

proof fn options_stand_behind_their_flags(args: Seq<Option<Seq<char>>>, c: Seq<char>, i: nat, options: Map<Seq<char>, usize>)
    requires
        i >= 1,
        args.len() <= usize::MAX,
        read(args, options),
        scanned(args, c, i, options) is Ok,
        scanned(args, c, i, options)->Ok_0 is Some,
    ensures
        ({
            let r = scanned(args, c, i, options)->Ok_0->0;
            &&& read(args, r)
            &&& forall|f: Seq<char>| #[trigger]
                options.contains_key(f) ==> r.contains_key(f) && r[f] == options[f]
            &&& forall|p: int|
                i <= p < args.len() && (#[trigger] args[p]) is Some && starts_with(args[p]->0, "--"@) ==> super::allowed(
                    c,
                    args[p]->0,
                ) && !options.contains_key(args[p]->0) && r.contains_key(args[p]->0) && r[args[p]->0] == (if args[p]->0
                    == "--no-project"@ { p } else { p + 1 })
        }),
    decreases args.len() - i,
{
    if i < args.len() {
        let flag = args[i as int]->0;
        let r = scanned(args, c, i, options)->Ok_0->0;
        if flag == "--no-project"@ {
            let next = options.insert(flag, i as usize);
            options_stand_behind_their_flags(args, c, i + 1, next);
            assert(next.contains_key(flag));
            assert forall|f: Seq<char>| #[trigger] options.contains_key(f) implies r.contains_key(f) && r[f] == options[f] by {
                assert(next.contains_key(f));
            }
            assert forall|p: int|
                i <= p < args.len() && (#[trigger] args[p]) is Some && starts_with(args[p]->0, "--"@) implies super::allowed(
                c,
                args[p]->0,
            ) && !options.contains_key(args[p]->0) && r.contains_key(args[p]->0) && r[args[p]->0] == (if args[p]->0
                == "--no-project"@ { p } else { p + 1 }) by {
                if p > i {
                    assert(!next.contains_key(args[p]->0));
                }
            }
        } else {
            let next = options.insert(flag, (i + 1) as usize);
            assert(behind(args, flag, (i + 1) as int));
            options_stand_behind_their_flags(args, c, i + 2, next);
            assert(next.contains_key(flag));
            assert forall|f: Seq<char>| #[trigger] options.contains_key(f) implies r.contains_key(f) && r[f] == options[f] by {
                assert(next.contains_key(f));
            }
            assert forall|p: int|
                i <= p < args.len() && (#[trigger] args[p]) is Some && starts_with(args[p]->0, "--"@) implies super::allowed(
                c,
                args[p]->0,
            ) && !options.contains_key(args[p]->0) && r.contains_key(args[p]->0) && r[args[p]->0] == (if args[p]->0
                == "--no-project"@ { p } else { p + 1 }) by {
                if p > i + 1 {
                    assert(!next.contains_key(args[p]->0));
                }
            }
        }
    }
}

/// Which command it is follows from the first word.
pub proof fn commands_are_named_by_the_first_word(args: Seq<Option<Seq<char>>>)
    requires
        parsed(args) is Ok,
        parsed(args)->Ok_0 is Some,
    ensures
        parsed(args)->Ok_0->0.command is List <==> args[0] == Some("list"@),
        parsed(args)->Ok_0->0.command is Projects <==> args[0] == Some("projects"@),
        parsed(args)->Ok_0->0.command is CreateProject <==> args[0] == Some("create-project"@),
        parsed(args)->Ok_0->0.command is Run <==> args[0] == Some("run"@),
{
    reveal_strlit("list");
    reveal_strlit("projects");
    reveal_strlit("create-project");
    reveal_strlit("run");
    assert("list"@.len() == 4 && "projects"@.len() == 8 && "create-project"@.len() == 14 && "run"@.len() == 3);
}

/// Every value of a parsed command stands behind its flag; of a run, exactly one of prompt and
/// prompt file, and who sees it as the word says.
pub proof fn values_stand_behind_their_flags(args: Seq<Option<Seq<char>>>)
    requires
        args.len() <= usize::MAX,
        parsed(args) is Ok,
        parsed(args)->Ok_0 is Some,
    ensures
        ({
            let a = parsed(args)->Ok_0->0;
            &&& behind(args, "--config"@, a.config as int)
            &&& a.extensions is Some ==> behind(args, "--extensions"@, a.extensions->0 as int)
            &&& a.workspace is Some ==> given(args, "--workspace"@, a.workspace->0)
            &&& a.harness is Some ==> given(args, "--harness"@, a.harness->0)
            &&& match a.command {
                CommandView::List => true,
                CommandView::Projects { cwd, timeout_secs } => cwd is Some ==> behind(args, "--cwd"@, cwd->0 as int),
                CommandView::CreateProject { cwd, name, idempotency_key, timeout_secs } => {
                    &&& cwd is Some ==> behind(args, "--cwd"@, cwd->0 as int)
                    &&& given(args, "--name"@, name) && !is_blank(name) && byte_len(name) <= 256
                    &&& given(args, "--idempotency-key"@, idempotency_key) && !is_blank(idempotency_key) && byte_len(
                        idempotency_key,
                    ) <= 512
                },
                CommandView::Run { cwd, prompt, model, visibility, project, timeout_secs } => {
                    &&& cwd is Some ==> behind(args, "--cwd"@, cwd->0 as int)
                    &&& prompt is Text ==> given(args, "--prompt"@, prompt->Text_0) && !is_blank(prompt->Text_0) && byte_len(
                        prompt->Text_0,
                    ) <= 65536
                    &&& prompt is File ==> behind(args, "--prompt-file"@, prompt->File_0 as int)
                    &&& model is Some ==> given(args, "--model"@, model->0) && byte_len(model->0) <= 128
                    &&& project is Some ==> given(args, "--project"@, project->0) && byte_len(project->0) <= 512
                    &&& visibility == ConversationVisibility::Client ==> given(args, "--visibility"@, "client"@)
                    &&& visibility == ConversationVisibility::Hidden ==> given(args, "--visibility"@, "hidden"@)
                },
            }
        }),
{
    let c = args[0]->0;
    let options = scanned(args, c, 1, Map::empty())->Ok_0->0;
    options_stand_behind_their_flags(args, c, 1, Map::empty());
    flags_are_flags();
    value_is_given(args, options, "--config");
    value_is_given(args, options, "--extensions");
    value_is_given(args, options, "--workspace");
    value_is_given(args, options, "--harness");
    value_is_given(args, options, "--cwd");
    value_is_given(args, options, "--name");
    value_is_given(args, options, "--idempotency-key");
    value_is_given(args, options, "--prompt");
    value_is_given(args, options, "--prompt-file");
    value_is_given(args, options, "--model");
    value_is_given(args, options, "--project");
    value_is_given(args, options, "--visibility");
}

proof fn flags_are_flags()
    ensures
        "--config"@ != "--no-project"@ && "--config"@.len() > 2 && "--config"@[0] == '-' && "--config"@[1] == '-',
        "--extensions"@ != "--no-project"@ && "--extensions"@.len() > 2 && "--extensions"@[0] == '-' && "--extensions"@[1] == '-',
        "--workspace"@ != "--no-project"@ && "--workspace"@.len() > 2 && "--workspace"@[0] == '-' && "--workspace"@[1] == '-',
        "--harness"@ != "--no-project"@ && "--harness"@.len() > 2 && "--harness"@[0] == '-' && "--harness"@[1] == '-',
        "--cwd"@ != "--no-project"@ && "--cwd"@.len() > 2 && "--cwd"@[0] == '-' && "--cwd"@[1] == '-',
        "--name"@ != "--no-project"@ && "--name"@.len() > 2 && "--name"@[0] == '-' && "--name"@[1] == '-',
        "--idempotency-key"@ != "--no-project"@ && "--idempotency-key"@.len() > 2 && "--idempotency-key"@[0] == '-' && "--idempotency-key"@[1] == '-',
        "--prompt"@ != "--no-project"@ && "--prompt"@.len() > 2 && "--prompt"@[0] == '-' && "--prompt"@[1] == '-',
        "--prompt-file"@ != "--no-project"@ && "--prompt-file"@.len() > 2 && "--prompt-file"@[0] == '-' && "--prompt-file"@[1] == '-',
        "--model"@ != "--no-project"@ && "--model"@.len() > 2 && "--model"@[0] == '-' && "--model"@[1] == '-',
        "--project"@ != "--no-project"@ && "--project"@.len() > 2 && "--project"@[0] == '-' && "--project"@[1] == '-',
        "--visibility"@ != "--no-project"@ && "--visibility"@.len() > 2 && "--visibility"@[0] == '-' && "--visibility"@[1] == '-',
        "--timeout-secs"@ != "--no-project"@ && "--timeout-secs"@.len() > 2 && "--timeout-secs"@[0] == '-' && "--timeout-secs"@[1] == '-',
{
    reveal_strlit("--config");
    reveal_strlit("--extensions");
    reveal_strlit("--workspace");
    reveal_strlit("--harness");
    reveal_strlit("--cwd");
    reveal_strlit("--name");
    reveal_strlit("--idempotency-key");
    reveal_strlit("--prompt");
    reveal_strlit("--prompt-file");
    reveal_strlit("--model");
    reveal_strlit("--project");
    reveal_strlit("--visibility");
    reveal_strlit("--timeout-secs");
    reveal_strlit("--no-project");
    assert("--config"@.len() == 8 && "--extensions"@.len() == 12 && "--workspace"@.len() == 11
        && "--harness"@.len() == 9 && "--cwd"@.len() == 5 && "--name"@.len() == 6
        && "--idempotency-key"@.len() == 17 && "--prompt"@.len() == 8 && "--prompt-file"@.len() == 13
        && "--model"@.len() == 7 && "--project"@.len() == 9 && "--visibility"@.len() == 12
        && "--timeout-secs"@.len() == 14 && "--no-project"@.len() == 12 && "--config"@[2] == 'c'
        && "--prompt"@[2] == 'p' && "--extensions"@[2] == 'e' && "--visibility"@[2] == 'v'
        && "--no-project"@[2] == 'n' && "--harness"@[2] == 'h' && "--project"@[2] == 'p');
    assert("--config"@[0] == '-' && "--config"@[1] == '-');
    assert("--extensions"@[0] == '-' && "--extensions"@[1] == '-');
    assert("--workspace"@[0] == '-' && "--workspace"@[1] == '-');
    assert("--harness"@[0] == '-' && "--harness"@[1] == '-');
    assert("--cwd"@[0] == '-' && "--cwd"@[1] == '-');
    assert("--name"@[0] == '-' && "--name"@[1] == '-');
    assert("--idempotency-key"@[0] == '-' && "--idempotency-key"@[1] == '-');
    assert("--prompt"@[0] == '-' && "--prompt"@[1] == '-');
    assert("--prompt-file"@[0] == '-' && "--prompt-file"@[1] == '-');
    assert("--model"@[0] == '-' && "--model"@[1] == '-');
    assert("--project"@[0] == '-' && "--project"@[1] == '-');
    assert("--visibility"@[0] == '-' && "--visibility"@[1] == '-');
    assert("--timeout-secs"@[0] == '-' && "--timeout-secs"@[1] == '-');
}

proof fn value_is_given(args: Seq<Option<Seq<char>>>, options: Map<Seq<char>, usize>, flag: &str)
    requires
        read(args, options),
    ensures
        options.contains_key(flag@) && flag@ != "--no-project"@ ==> behind(args, flag@, options[flag@] as int) && (
        args[options[flag@] as int] is Some ==> given(args, flag@, args[options[flag@] as int]->0)),
{
    if options.contains_key(flag@) && flag@ != "--no-project"@ {
        assert(behind(args, flag@, options[flag@] as int));
    }
}

/// What was given counts: a value behind its flag is the one that the command gets.
pub proof fn given_values_count(args: Seq<Option<Seq<char>>>, at: int)
    requires
        args.len() <= usize::MAX,
        parsed(args) is Ok,
        parsed(args)->Ok_0 is Some,
    ensures
        ({
            let a = parsed(args)->Ok_0->0;
            &&& behind(args, "--config"@, at) ==> a.config == at
            &&& behind(args, "--extensions"@, at) ==> a.extensions == Some(at as usize)
            &&& behind(args, "--workspace"@, at) ==> a.workspace == args[at]
            &&& behind(args, "--harness"@, at) ==> a.harness == args[at]
            &&& a.command is Run ==> {
                &&& behind(args, "--model"@, at) ==> a.command->model == args[at]
                &&& behind(args, "--project"@, at) ==> a.command->project == args[at]
                &&& behind(args, "--prompt"@, at) ==> a.command->prompt is Text && Some(a.command->prompt->Text_0) == args[at]
                &&& behind(args, "--prompt-file"@, at) ==> a.command->prompt == PromptView::File(at as usize)
                &&& behind(args, "--visibility"@, at) ==> (a.command->visibility == ConversationVisibility::Client
                    <==> args[at] == Some("client"@))
                &&& behind(args, "--timeout-secs"@, at) ==> args[at] is Some && a.command->Run_timeout_secs == number_of(
                    args[at]->0,
                )
                &&& (forall|k: int| 1 <= k < args.len() ==> args[k] != Some("--timeout-secs"@))
                    ==> a.command->Run_timeout_secs == 180
            }
        }),
{
    let c = args[0]->0;
    let options = scanned(args, c, 1, Map::empty())->Ok_0->0;
    options_stand_behind_their_flags(args, c, 1, Map::empty());
    flags_are_flags();
    reveal_strlit("client");
    reveal_strlit("hidden");
    assert("client"@.len() == 6 && "hidden"@.len() == 6 && "client"@[0] == 'c' && "hidden"@[0] == 'h');
    flag_counts(args, c, options, "--config", at);
    flag_counts(args, c, options, "--extensions", at);
    flag_counts(args, c, options, "--workspace", at);
    flag_counts(args, c, options, "--harness", at);
    flag_counts(args, c, options, "--model", at);
    flag_counts(args, c, options, "--project", at);
    flag_counts(args, c, options, "--prompt", at);
    flag_counts(args, c, options, "--prompt-file", at);
    flag_counts(args, c, options, "--visibility", at);
    flag_counts(args, c, options, "--timeout-secs", at);
    if forall|k: int| 1 <= k < args.len() ==> args[k] != Some("--timeout-secs"@) {
        assert("--timeout-secs"@ != "--no-project"@);
        if options.contains_key("--timeout-secs"@) {
            assert(behind(args, "--timeout-secs"@, options["--timeout-secs"@] as int));
            assert(args[options["--timeout-secs"@] - 1] == Some("--timeout-secs"@));
        }
    }
}

proof fn flag_counts(args: Seq<Option<Seq<char>>>, c: Seq<char>, options: Map<Seq<char>, usize>, flag: &str, at: int)
    requires
        args.len() <= usize::MAX,
        flag@.len() > 2,
        flag@[0] == '-',
        flag@[1] == '-',
        flag@ != "--no-project"@,
        forall|p: int|
            1 <= p < args.len() && (#[trigger] args[p]) is Some && starts_with(args[p]->0, "--"@) ==> options.contains_key(
                args[p]->0,
            ) && options[args[p]->0] == (if args[p]->0 == "--no-project"@ { p } else { p + 1 }),
    ensures
        behind(args, flag@, at) ==> options.contains_key(flag@) && options[flag@] == at,
{
    reveal_strlit("--");
    assert("--"@.len() == 2 && "--"@[0] == '-' && "--"@[1] == '-');
    if behind(args, flag@, at) {
        assert(flag@.subrange(0, 2) =~= "--"@);
        assert(starts_with(args[at - 1]->0, "--"@));
    }
}

/// No option stands twice, and none that the command does not know: a list takes a
/// configuration and extensions only, projects add an instance, a place and a time, creating
/// adds a name and a key, and only a run takes a prompt, a model, who sees it, and a project.
pub proof fn options_belong_to_their_command(args: Seq<Option<Seq<char>>>, p: int, q: int)
    requires
        args.len() <= usize::MAX,
        parsed(args) is Ok,
        parsed(args)->Ok_0 is Some,
        1 <= p < q < args.len(),
        args[p] is Some,
        starts_with(args[p]->0, "--"@),
    ensures
        args[q] != args[p],
        args[0] == Some("list"@) ==> args[p]->0 == "--config"@ || args[p]->0 == "--extensions"@,
        args[p]->0 == "--name"@ || args[p]->0 == "--idempotency-key"@ ==> args[0] == Some("create-project"@),
        args[p]->0 == "--prompt"@ || args[p]->0 == "--prompt-file"@ || args[p]->0 == "--model"@ || args[p]->0 == "--visibility"@
            || args[p]->0 == "--project"@ || args[p]->0 == "--no-project"@ ==> args[0] == Some("run"@),
{
    reveal_strlit("list");
    reveal_strlit("projects");
    reveal_strlit("create-project");
    reveal_strlit("run");
    assert("list"@.len() == 4 && "projects"@.len() == 8 && "create-project"@.len() == 14 && "run"@.len() == 3);
    reveal_strlit("--config");
    reveal_strlit("--extensions");
    reveal_strlit("--harness");
    reveal_strlit("--cwd");
    reveal_strlit("--workspace");
    reveal_strlit("--timeout-secs");
    reveal_strlit("--name");
    reveal_strlit("--idempotency-key");
    reveal_strlit("--prompt");
    reveal_strlit("--prompt-file");
    reveal_strlit("--model");
    reveal_strlit("--visibility");
    reveal_strlit("--project");
    reveal_strlit("--no-project");
    assert("--config"@.len() == 8 && "--extensions"@.len() == 12 && "--harness"@.len() == 9
        && "--cwd"@.len() == 5 && "--workspace"@.len() == 11 && "--timeout-secs"@.len() == 14
        && "--name"@.len() == 6 && "--idempotency-key"@.len() == 17 && "--prompt"@.len() == 8
        && "--prompt-file"@.len() == 13 && "--model"@.len() == 7 && "--visibility"@.len() == 12
        && "--project"@.len() == 9 && "--no-project"@.len() == 12 && "--config"@[2] == 'c'
        && "--prompt"@[2] == 'p' && "--extensions"@[2] == 'e' && "--visibility"@[2] == 'v'
        && "--no-project"@[2] == 'n' && "--harness"@[2] == 'h' && "--project"@[2] == 'p');
    let c = args[0]->0;
    options_stand_behind_their_flags(args, c, 1, Map::empty());
    if args[q] == args[p] {
        assert(starts_with(args[q]->0, "--"@));
    }
}

/// A time is read digit by digit.
pub proof fn times_are_read_by_their_digits(text: Seq<char>, last: char)
    requires
        48 <= last as int <= 57,
    ensures
        number_of(Seq::empty()) == 0,
        number_of(text.push(last)) == number_of(text) * 10 + (last as int - 48),
{
    assert(text.push(last).drop_last() =~= text);
}

// Repair commands.

/// Whether a value stands behind its flag among the pairs of a repair command.
pub open spec fn paired_value(args: Seq<Option<Seq<char>>>, flag: Seq<char>, at: int) -> bool {
    2 <= at < args.len() && at % 2 == 0 && args[at - 1] == Some(flag)
}

spec fn pairs_read(args: Seq<Option<Seq<char>>>, options: Map<Seq<char>, usize>) -> bool {
    forall|flag: Seq<char>| #[trigger] options.contains_key(flag) ==> paired_value(args, flag, options[flag] as int)
}

proof fn pairs_stand_together(args: Seq<Option<Seq<char>>>, i: nat, options: Map<Seq<char>, usize>)
    requires
        i >= 1,
        i % 2 == 1,
        args.len() <= usize::MAX,
        pairs_read(args, options),
        paired(args, i, options) is Ok,
    ensures
        ({
            let r = paired(args, i, options)->Ok_0;
            &&& pairs_read(args, r)
            &&& forall|f: Seq<char>| #[trigger] options.contains_key(f) ==> r.contains_key(f) && r[f] == options[f]
            &&& forall|p: int|
                i <= p < args.len() - 1 && p % 2 == 1 ==> (#[trigger] args[p]) is Some && !options.contains_key(args[p]->0)
                    && r.contains_key(args[p]->0) && r[args[p]->0] == p + 1
        }),
    decreases args.len() - i,
{
    if i + 1 < args.len() {
        let key = args[i as int]->0;
        let next = options.insert(key, (i + 1) as usize);
        let r = paired(args, i, options)->Ok_0;
        assert(paired_value(args, key, (i + 1) as int));
        pairs_stand_together(args, i + 2, next);
        assert(next.contains_key(key));
        assert forall|f: Seq<char>| #[trigger] options.contains_key(f) implies r.contains_key(f) && r[f] == options[f] by {
            assert(next.contains_key(f));
        }
        assert forall|p: int| i <= p < args.len() - 1 && p % 2 == 1 implies (#[trigger] args[p]) is Some
            && !options.contains_key(args[p]->0) && r.contains_key(args[p]->0) && r[args[p]->0] == p + 1 by {
            if p > i {
                assert(p >= i + 2);
                assert(!next.contains_key(args[p]->0));
            }
        }
    }
}

/// A repair command is its first word and at most nineteen more; every value stands behind
/// its flag, and what is given counts.
pub proof fn repair_values_stand_behind_their_flags(args: Seq<Option<Seq<char>>>, at: int)
    requires
        args.len() <= 20,
        repair_parsed(args) is Ok,
        repair_parsed(args)->Ok_0 is Some,
    ensures
        ({
            let a = repair_parsed(args)->Ok_0->0;
            &&& args[0] == Some(a.command)
            &&& args.len() % 2 == 1
            &&& paired_value(args, "--config"@, a.config as int)
            &&& paired_value(args, "--task"@, at) ==> a.task == args[at]
            &&& paired_value(args, "--prompt"@, at) ==> a.prompt == args[at]
            &&& paired_value(args, "--request"@, at) ==> a.request == args[at]
            &&& paired_value(args, "--reason"@, at) ==> a.reason == args[at]
        }),
{
    let c = args[0]->0;
    let r = paired(args, 1, Map::empty())->Ok_0;
    pairs_stand_together(args, 1, Map::empty());
    repair_options_are_needed(args);
    assert(super::repair::looked_at(args) == args);
    assert(r.contains_key("--config"@));
    if paired_value(args, "--task"@, at) || paired_value(args, "--prompt"@, at) || paired_value(args, "--request"@, at)
        || paired_value(args, "--reason"@, at) {
        assert(r.contains_key(args[at - 1]->0) && r[args[at - 1]->0] == at);
        assert(r.dom().contains(args[at - 1]->0));
        assert(super::repair::taken(c).contains(args[at - 1]->0));
        reveal_strlit("--config");
        reveal_strlit("--task");
        reveal_strlit("--prompt");
        reveal_strlit("--request");
        reveal_strlit("--reason");
        assert("--config"@.len() == 8 && "--task"@.len() == 6 && "--prompt"@.len() == 8 && "--request"@.len() == 9
            && "--reason"@.len() == 8 && "--config"@[2] == 'c' && "--prompt"@[2] == 'p' && "--reason"@[2] == 'r');
        reveal_strlit("run");
        reveal_strlit("inspect");
        reveal_strlit("approve");
        reveal_strlit("deny");
        reveal_strlit("revoke");
        reveal_strlit("apply");
        reveal_strlit("reconcile");
        assert("run"@.len() == 3 && "inspect"@.len() == 7 && "approve"@.len() == 7 && "deny"@.len() == 4
            && "revoke"@.len() == 6 && "apply"@.len() == 5 && "reconcile"@.len() == 9 && "inspect"@[0] == 'i'
            && "approve"@[0] == 'a');
    }
}

/// What each repair command needs: running a task and a prompt, deciding a request and a
/// reason, applying and reconciling a request; nothing else is taken.
pub proof fn repair_options_are_needed(args: Seq<Option<Seq<char>>>)
    requires
        args.len() <= 20,
        repair_parsed(args) is Ok,
        repair_parsed(args)->Ok_0 is Some,
    ensures
        ({
            let a = repair_parsed(args)->Ok_0->0;
            let c = a.command;
            &&& c == "run"@ || c == "inspect"@ || c == "approve"@ || c == "deny"@ || c == "revoke"@ || c == "apply"@ || c
                == "reconcile"@
            &&& c == "run"@ ==> a.task is Some && a.prompt is Some && byte_len(a.task->0) <= 128 && byte_len(a.prompt->0) <= 8192
            &&& c != "run"@ ==> a.task is None && a.prompt is None
            &&& c != "run"@ && c != "inspect"@ ==> a.request is Some && byte_len(a.request->0) <= 512
            &&& c == "approve"@ || c == "deny"@ || c == "revoke"@ ==> a.reason is Some && !is_blank(a.reason->0) && byte_len(
                a.reason->0,
            ) <= 8192
            &&& c == "run"@ || c == "inspect"@ || c == "apply"@ || c == "reconcile"@ ==> a.reason is None
        }),
{
    reveal_strlit("run");
    reveal_strlit("inspect");
    reveal_strlit("approve");
    reveal_strlit("deny");
    reveal_strlit("revoke");
    reveal_strlit("apply");
    reveal_strlit("reconcile");
    assert("run"@.len() == 3 && "inspect"@.len() == 7 && "approve"@.len() == 7 && "deny"@.len() == 4
        && "revoke"@.len() == 6 && "apply"@.len() == 5 && "reconcile"@.len() == 9 && "inspect"@[0] == 'i'
        && "approve"@[0] == 'a');
    assert(super::repair::looked_at(args) == args);
}

/// A repair command without its configuration, with an odd word left over, or under another
/// name is refused.
pub proof fn incomplete_repair_commands_are_refused(args: Seq<Option<Seq<char>>>)
    requires
        0 < args.len() <= 20,
        args[0] is Some,
        args[0]->0 != "--help"@,
    ensures
        args.len() % 2 == 0 ==> repair_parsed(args) is Err,
        (forall|p: int| 1 <= p < args.len() ==> args[p] != Some("--config"@)) ==> repair_parsed(args) is Err,
{
    assert(super::repair::looked_at(args) == args);
    if repair_parsed(args) is Ok {
        let r = paired(args, 1, Map::empty())->Ok_0;
        pairs_stand_together(args, 1, Map::empty());
        assert(r.contains_key("--config"@));
        assert(paired_value(args, "--config"@, r["--config"@] as int));
        assert(args[r["--config"@] - 1] == Some("--config"@));
    }
}

} // verus!
