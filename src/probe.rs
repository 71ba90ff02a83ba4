//! Running helper programs: what their outcome means, and the failures kept
//! for a report that is made only when the search as a whole fails.
use vstd::prelude::*;
use crate::text::{clone_texts, joined, join_texts, trim, trimmed, views_of};

verus! {

/// The names and message lists of `names` and `lists`, as a map.
pub open spec fn pairs_map(names: Seq<Seq<char>>, lists: Seq<Seq<Seq<char>>>) -> Map<
    Seq<char>,
    Seq<Seq<char>>,
>
    decreases names.len(),
{
    if names.len() == 0 || lists.len() == 0 {
        Map::empty()
    } else {
        pairs_map(names.drop_last(), lists.drop_last()).insert(names.last(), lists.last())
    }
}

/// Whether no name occurs twice.
pub open spec fn unique_names(names: Seq<Seq<char>>) -> bool {
    forall|i: int, j: int| 0 <= i < names.len() && 0 <= j < names.len() && i != j ==> #[trigger] names[i] != #[trigger] names[j]
}

proof fn lemma_pairs_map_keys(names: Seq<Seq<char>>, lists: Seq<Seq<Seq<char>>>, n: Seq<char>)
    requires
        names.len() == lists.len(),
    ensures
        pairs_map(names, lists).contains_key(n) <==> names.contains(n),
    decreases names.len(),
{
    if names.len() > 0 {
        lemma_pairs_map_keys(names.drop_last(), lists.drop_last(), n);
        if names.drop_last().contains(n) {
            let k = choose|k: int| 0 <= k < names.drop_last().len() && names.drop_last()[k] == n;
            assert(names[k] == n);
        }
        if names.contains(n) && n != names.last() {
            let k = choose|k: int| 0 <= k < names.len() && names[k] == n;
            assert(names.drop_last()[k] == n);
        }
    }
}

proof fn lemma_pairs_map_update(names: Seq<Seq<char>>, lists: Seq<Seq<Seq<char>>>, i: int, x: Seq<Seq<char>>)
    requires
        names.len() == lists.len(),
        unique_names(names),
        0 <= i < names.len(),
    ensures
        pairs_map(names, lists.update(i, x)) == pairs_map(names, lists).insert(names[i], x),
        pairs_map(names, lists)[names[i]] == lists[i],
    decreases names.len(),
{
    let last = names.len() - 1;
    assert(lists.update(i, x).drop_last() =~= if i == last {
        lists.drop_last()
    } else {
        lists.drop_last().update(i, x)
    });
    if i == last {
        assert(pairs_map(names, lists.update(i, x)) =~= pairs_map(names, lists).insert(names[i], x));
    } else {
        assert(unique_names(names.drop_last()));
        lemma_pairs_map_update(names.drop_last(), lists.drop_last(), i, x);
        assert(names[i] != names.last());
        assert(pairs_map(names, lists.update(i, x)) =~= pairs_map(names, lists).insert(names[i], x));
    }
}

/// The failures met while running helper programs, by program name, each
/// name with its messages in the order they came.
pub struct CommandErrors {
    names: Vec<String>,
    lists: Vec<Vec<String>>,
}

impl View for CommandErrors {
    type V = Map<Seq<char>, Seq<Seq<char>>>;

    closed spec fn view(&self) -> Map<Seq<char>, Seq<Seq<char>>> {
        pairs_map(self.names.deep_view(), self.lists.deep_view())
    }
}

impl CommandErrors {
    /// The record holds one list per program name.
    pub closed spec fn wf(&self) -> bool {
        &&& self.names@.len() == self.lists@.len()
        &&& unique_names(self.names.deep_view())
    }

    /// The messages kept for `name`, none if there are none.
    pub open spec fn messages(&self, name: Seq<char>) -> Seq<Seq<char>> {
        if self@.contains_key(name) {
            self@[name]
        } else {
            Seq::empty()
        }
    }

    /// An empty record.
    pub fn new() -> (r: CommandErrors)
        ensures
            r.wf(),
            r@ == Map::<Seq<char>, Seq<Seq<char>>>::empty(),
    {
        let r = CommandErrors { names: Vec::new(), lists: Vec::new() };
        assert(r.names.deep_view() =~= Seq::<Seq<char>>::empty());
        r
    }

    /// The messages kept for `name`, if any were.
    pub fn get(&self, name: &str) -> (r: Option<Vec<String>>)
        requires
            self.wf(),
        ensures
            r is Some <==> self@.contains_key(name@),
            r matches Some(v) ==> v.deep_view() == self@[name@],
    {
        let key = name.to_owned();
        let mut i: usize = 0;
        while i < self.names.len()
            invariant
                self.wf(),
                key@ == name@,
                i <= self.names@.len(),
                forall|j: int| 0 <= j < i ==> self.names@[j]@ != name@,
            decreases self.names@.len() - i,
        {
            if self.names[i] == key {
                proof {
                    lemma_pairs_map_update(self.names.deep_view(), self.lists.deep_view(), i as int, self.lists.deep_view()[i as int]);
                    lemma_pairs_map_keys(self.names.deep_view(), self.lists.deep_view(), name@);
                    assert(self.names.deep_view()[i as int] == name@);
                }
                return Some(clone_texts(&self.lists[i]));
            }
            i = i + 1;
        }
        proof {
            lemma_pairs_map_keys(self.names.deep_view(), self.lists.deep_view(), name@);
            if self.names.deep_view().contains(name@) {
                let k = choose|k: int| 0 <= k < self.names.deep_view().len() && self.names.deep_view()[k] == name@;
                assert(self.names@[k]@ == name@);
            }
        }
        None
    }

    /// Appends `message` to the messages of `name`.
    fn push_message(&mut self, name: &str, message: String)
        requires
            old(self).wf(),
        ensures
            final(self).wf(),
            final(self)@ == old(self)@.insert(name@, old(self).messages(name@).push(message@)),
    {
        let key = name.to_owned();
        let ghost ns = self.names.deep_view();
        let ghost ls = self.lists.deep_view();
        proof {
            lemma_pairs_map_keys(ns, ls, name@);
        }
        let mut i: usize = 0;
        while i < self.names.len()
            invariant
                self.wf(),
                key@ == name@,
                ns == self.names.deep_view(),
                ls == self.lists.deep_view(),
                *self == *old(self),
                i <= self.names@.len(),
                forall|j: int| 0 <= j < i ==> self.names@[j]@ != name@,
            decreases self.names@.len() - i,
        {
            if self.names[i] == key {
                proof {
                    assert(ns[i as int] == name@);
                    lemma_pairs_map_keys(ns, ls, name@);
                    assert(ns.contains(name@));
                    lemma_pairs_map_update(ns, ls, i as int, ls[i as int].push(message@));
                }
                let ghost old_lists = self.lists@;
                self.lists[i].push(message);
                assert(self.lists@[i as int].deep_view() =~= ls[i as int].push(message@));
                assert forall|k: int| 0 <= k < ls.len() && k != i implies #[trigger] self.lists@[k].deep_view() == ls[k] by {
                    assert(self.lists@[k] == old_lists[k]);
                }
                assert(self.lists.deep_view() =~= ls.update(i as int, ls[i as int].push(message@)));
                return;
            }
            i = i + 1;
        }
        proof {
            if ns.contains(name@) {
                let k = choose|k: int| 0 <= k < ns.len() && ns[k] == name@;
                assert(self.names@[k]@ == name@);
            }
        }
        self.names.push(key);
        let ghost old_lists = self.lists@;
        let fresh = vec![message];
        assert(fresh.deep_view() =~= seq![message@]);
        self.lists.push(fresh);
        assert(self.names.deep_view() =~= ns.push(name@));
        assert forall|k: int| 0 <= k < ls.len() implies #[trigger] self.lists@[k].deep_view() == ls[k] by {
            assert(self.lists@[k] == old_lists[k]);
        }
        assert(self.lists.deep_view() =~= ls.push(seq![message@]));
        assert(self.names.deep_view().drop_last() =~= ns);
        assert(self.lists.deep_view().drop_last() =~= ls);
        assert(seq![message@] =~= Seq::<Seq<char>>::empty().push(message@));
    }
}

/// The message kept for a failed run of the program `name` at `path`.
pub open spec fn command_error_text(
    name: Seq<char>,
    arguments: Seq<Seq<char>>,
    path: Seq<char>,
    message: Seq<char>,
) -> Seq<char> {
    "couldn't execute `"@ + name + " "@ + joined(arguments, " "@) + "` (path="@ + path + ") ("@
        + message + ")"@
}

/// Keeps a failure met while running the program `name` at `path`.
pub fn add_command_error(
    errors: &mut CommandErrors,
    name: &str,
    path: &str,
    arguments: &[&str],
    message: String,
)
    requires
        old(errors).wf(),
    ensures
        final(errors).wf(),
        final(errors)@ == old(errors)@.insert(
            name@,
            old(errors).messages(name@).push(
                command_error_text(name@, views_of(arguments@), path@, message@),
            ),
        ),
{
    let mut text = "couldn't execute `".to_owned();
    text.append(name);
    text.append(" ");
    let args = join_texts(arguments, " ");
    text.append(args.as_str());
    text.append("` (path=");
    text.append(path);
    text.append(") (");
    text.append(message.as_str());
    text.append(")");
    errors.push_message(name, text);
}

/// How a run of a helper program ended, as the caller that ran it saw it.
pub enum CommandOutcome {
    /// The program could not be started; the text describes the error.
    NotStarted(String),
    /// The program ran and exited; `status` describes its exit status and
    /// `stdout` holds what it printed.
    Exited { success: bool, status: String, stdout: String },
}

/// What a run of a helper program yields: what it printed, trimmed, if it
/// succeeded; nothing otherwise.
pub open spec fn command_result(outcome: CommandOutcome) -> Option<Seq<char>> {
    match outcome {
        CommandOutcome::Exited { success: true, stdout, .. } => Some(trimmed(stdout@)),
        _ => None,
    }
}

/// The message kept for a run that did not succeed.
pub open spec fn failure_message(outcome: CommandOutcome) -> Seq<char> {
    match outcome {
        CommandOutcome::NotStarted(e) => "error: "@ + e@,
        CommandOutcome::Exited { status, .. } => "exit code: "@ + status@,
    }
}

/// The record after a run: unchanged after a success, else with the
/// failure kept under the program's name.
pub open spec fn errors_after(
    errors: CommandErrors,
    name: Seq<char>,
    arguments: Seq<Seq<char>>,
    path: Seq<char>,
    outcome: CommandOutcome,
) -> Map<Seq<char>, Seq<Seq<char>>> {
    if command_result(outcome) is Some {
        errors@
    } else {
        errors@.insert(
            name,
            errors.messages(name).push(
                command_error_text(name, arguments, path, failure_message(outcome)),
            ),
        )
    }
}

/// Takes the outcome of running the program `name` at `path` with
/// `arguments`: what it printed, trimmed, if it succeeded; otherwise nothing, and the
/// failure is kept in `errors`.
pub fn run_command(
    errors: &mut CommandErrors,
    name: &str,
    path: &str,
    arguments: &[&str],
    outcome: CommandOutcome,
) -> (r: Option<String>)
    requires
        old(errors).wf(),
    ensures
        final(errors).wf(),
        r matches Some(o) ==> command_result(outcome) == Some(o@),
        r is None <==> command_result(outcome) is None,
        final(errors)@ == errors_after(*old(errors), name@, views_of(arguments@), path@, outcome),
{
    match outcome {
        CommandOutcome::NotStarted(e) => {
            let mut message = "error: ".to_owned();
            message.append(e.as_str());
            add_command_error(errors, name, path, arguments, message);
            None
        },
        CommandOutcome::Exited { success, status, stdout } => {
            if success {
                Some(trim(stdout.as_str()).to_owned())
            } else {
                let mut message = "exit code: ".to_owned();
                message.append(status.as_str());
                add_command_error(errors, name, path, arguments, message);
                None
            }
        },
    }
}

/// Takes the outcome of running `llvm-config` (found at `path`) with
/// `arguments`.
pub fn run_llvm_config(
    errors: &mut CommandErrors,
    path: &str,
    arguments: &[&str],
    outcome: CommandOutcome,
) -> (r: Option<String>)
    requires
        old(errors).wf(),
    ensures
        final(errors).wf(),
        r matches Some(o) ==> command_result(outcome) == Some(o@),
        r is None <==> command_result(outcome) is None,
        final(errors)@ == errors_after(
            *old(errors),
            "llvm-config"@,
            views_of(arguments@),
            path@,
            outcome,
        ),
{
    run_command(errors, "llvm-config", path, arguments, outcome)
}

/// Takes the outcome of running `xcode-select` from the search path with
/// `arguments`.
pub fn run_xcode_select(errors: &mut CommandErrors, arguments: &[&str], outcome: CommandOutcome) -> (r:
    Option<String>)
    requires
        old(errors).wf(),
    ensures
        final(errors).wf(),
        r matches Some(o) ==> command_result(outcome) == Some(o@),
        r is None <==> command_result(outcome) is None,
        final(errors)@ == errors_after(
            *old(errors),
            "xcode-select"@,
            views_of(arguments@),
            "xcode-select"@,
            outcome,
        ),
{
    run_command(errors, "xcode-select", "xcode-select", arguments, outcome)
}

/// A message in double quotes.
pub open spec fn quoted(m: Seq<char>) -> Seq<char> {
    "\""@ + m + "\""@
}

/// Each message in double quotes, one per line, the later lines indented.
pub open spec fn quoted_list(ms: Seq<Seq<char>>) -> Seq<char> {
    joined(ms.map_values(|m: Seq<char>| quoted(m)), "\n  "@)
}

/// The advice given where `llvm-config` could not be run.
pub open spec fn llvm_config_advice() -> Seq<char> {
    "cargo:warning=could not execute `llvm-config` one or more times, if the LLVM_CONFIG_PATH environment variable is set to a full path to valid `llvm-config` executable it will be used to try to find an instance of `libclang` on your system: "@
}

/// The advice given where `xcode-select` could not be run.
pub open spec fn xcode_select_advice() -> Seq<char> {
    "cargo:warning=could not execute `xcode-select` one or more times, if a valid instance of this executable is on your PATH it will be used to try to find an instance of `libclang` on your system: "@
}

/// The warning for the program `name`, if any of its runs failed.
pub open spec fn warning_for(
    errors: Map<Seq<char>, Seq<Seq<char>>>,
    name: Seq<char>,
    advice: Seq<char>,
) -> Seq<Seq<char>> {
    if errors.contains_key(name) {
        seq![advice + quoted_list(errors[name])]
    } else {
        Seq::empty()
    }
}

/// Writes each message in double quotes, one per line.
fn quote_all(ms: &Vec<String>) -> (r: String)
    ensures
        r@ == quoted_list(ms.deep_view()),
{
    let ghost qs = ms.deep_view().map_values(|m: Seq<char>| quoted(m));
    let mut r = String::new();
    let mut i: usize = 0;
    assert(qs.take(0) =~= Seq::<Seq<char>>::empty());
    while i < ms.len()
        invariant
            i <= ms@.len(),
            qs == ms.deep_view().map_values(|m: Seq<char>| quoted(m)),
            r@ == joined(qs.take(i as int), "\n  "@),
        decreases ms@.len() - i,
    {
        assert(qs.take(i + 1).drop_last() =~= qs.take(i as int));
        assert(qs.take(i + 1).last() == quoted(ms@[i as int]@));
        if i > 0 {
            r.append("\n  ");
        } else {
            assert(r@ =~= Seq::<char>::empty());
        }
        r.append("\"");
        r.append(ms[i].as_str());
        r.append("\"");
        assert(r@ =~= joined(qs.take(i + 1), "\n  "@));
        i = i + 1;
    }
    assert(qs.take(i as int) =~= qs);
    r
}

/// Reports the failures of helper programs when it is dropped, unless it has
/// been discarded: the failures matter only where no library was found.
pub struct CommandErrorPrinter {
    discard: bool,
}

impl Default for CommandErrorPrinter {
    fn default() -> (r: CommandErrorPrinter)
        ensures
            !r.is_discarded(),
    {
        CommandErrorPrinter { discard: false }
    }
}

impl CommandErrorPrinter {
    /// Whether the report has been called off.
    pub closed spec fn is_discarded(&self) -> bool {
        self.discard
    }

    /// Calls off the report: the failures were noise.
    pub fn discard(&mut self)
        ensures
            final(self).is_discarded(),
    {
        self.discard = true;
    }

    /// The warnings to print when the printer goes out of use: none once
    /// discarded; else one for `llvm-config` and then one for
    /// `xcode-select`, each where runs of that program failed.
    pub fn report(&self, errors: &CommandErrors) -> (r: Vec<String>)
        requires
            errors.wf(),
        ensures
            self.is_discarded() ==> r.deep_view() == Seq::<Seq<char>>::empty(),
            !self.is_discarded() ==> r.deep_view() == warning_for(
                errors@,
                "llvm-config"@,
                llvm_config_advice(),
            ) + warning_for(errors@, "xcode-select"@, xcode_select_advice()),
    {
        let mut r: Vec<String> = Vec::new();
        if self.discard {
            assert(r.deep_view() =~= Seq::<Seq<char>>::empty());
            return r;
        }
        let ghost first = warning_for(errors@, "llvm-config"@, llvm_config_advice());
        let ghost second = warning_for(errors@, "xcode-select"@, xcode_select_advice());
        if let Some(ms) = errors.get("llvm-config") {
            let mut w = "cargo:warning=could not execute `llvm-config` one or more times, if the LLVM_CONFIG_PATH environment variable is set to a full path to valid `llvm-config` executable it will be used to try to find an instance of `libclang` on your system: ".to_owned();
            let q = quote_all(&ms);
            w.append(q.as_str());
            r.push(w);
        }
        assert(r.deep_view() =~= first);
        if let Some(ms) = errors.get("xcode-select") {
            let mut w = "cargo:warning=could not execute `xcode-select` one or more times, if a valid instance of this executable is on your PATH it will be used to try to find an instance of `libclang` on your system: ".to_owned();
            let q = quote_all(&ms);
            w.append(q.as_str());
            let ghost before = r.deep_view();
            r.push(w);
            assert(r.deep_view() =~= before.push(w@));
        }
        assert(r.deep_view() =~= first + second);
        r
    }
}

} // verus!
