//! Commands that a device may ask for by name.
use crate::config_manager::ActionEntry;
use crate::text::{same_text, views};
use crate::watcher::{env_var, env_views, EnvVar};
use vstd::prelude::*;
use vstd::string::*;

verus! {

/// The commands, once they are known. What is given later does not count.
#[derive(Debug)]
pub struct ActionRunner {
    pub actions: Option<Vec<ActionEntry>>,
}

/// What is told of the commands that were given.
#[derive(Debug, Clone, Copy, PartialEq, Eq, Structural)]
pub enum Loaded {
    /// They came too late.
    Late,
    /// There are none.
    Empty,
    /// So many.
    Actions(usize),
}

/// How a command is run: the program, its arguments, of which the first is its own name, and what is
/// added to its environment.
#[derive(Debug)]
pub struct ActionPlan {
    pub program: String,
    pub args: Vec<String>,
    pub env: Vec<EnvVar>,
}

/// How a command is run, by its view.
pub struct PlanView {
    pub program: Seq<char>,
    pub args: Seq<Seq<char>>,
    pub env: Seq<(Seq<char>, Seq<char>)>,
}

impl View for ActionPlan {
    type V = PlanView;

    open spec fn view(&self) -> PlanView {
        PlanView { program: self.program@, args: views(self.args@), env: env_views(self.env@) }
    }
}

/// A command is run by the shell, which finds in its environment the name that was asked for.
pub open spec fn plan_for(name: Seq<char>, command: Seq<char>) -> PlanView {
    PlanView {
        program: "/bin/sh"@,
        args: seq!["/bin/sh"@, "-c"@, command],
        env: seq![("MCUB_ACTION_NAME"@, name)],
    }
}

fn action_plan(name: &str, command: &str) -> (r: ActionPlan)
    ensures
        r@ == plan_for(name@, command@),
{
    let mut args: Vec<String> = Vec::new();
    args.push("/bin/sh".to_owned());
    args.push("-c".to_owned());
    args.push(command.to_owned());
    let mut env: Vec<EnvVar> = Vec::new();
    env.push(env_var("MCUB_ACTION_NAME", name));
    assert(views(args@) =~= seq!["/bin/sh"@, "-c"@, command@]);
    assert(env_views(env@) =~= seq![("MCUB_ACTION_NAME"@, name@)]);
    ActionPlan { program: "/bin/sh".to_owned(), args, env }
}

/// What to do for a name.
#[derive(Debug)]
pub enum Dispatch {
    /// Nothing: the name is empty, or no commands were given.
    Ignore,
    /// No command has the name.
    Unknown,
    /// Run a command in this way.
    Run(ActionPlan),
}

/// What to do for a name, by its view.
pub enum DispatchView {
    Ignore,
    Unknown,
    Run(PlanView),
}

impl View for Dispatch {
    type V = DispatchView;

    open spec fn view(&self) -> DispatchView {
        match self {
            Dispatch::Ignore => DispatchView::Ignore,
            Dispatch::Unknown => DispatchView::Unknown,
            Dispatch::Run(p) => DispatchView::Run(p@),
        }
    }
}

/// The command of a name: the one that was given last, if several have it.
pub open spec fn command_of(actions: Seq<ActionEntry>, name: Seq<char>) -> Option<Seq<char>>
    decreases actions.len(),
{
    if actions.len() == 0 {
        None
    } else if actions.last().name@ == name {
        Some(actions.last().command@)
    } else {
        command_of(actions.drop_last(), name)
    }
}

/// What to do for a name.
pub open spec fn dispatch_of(actions: Option<Vec<ActionEntry>>, name: Seq<char>) -> DispatchView {
    if name.len() == 0 {
        DispatchView::Ignore
    } else {
        match actions {
            None => DispatchView::Ignore,
            Some(list) => match command_of(list@, name) {
                Some(c) => DispatchView::Run(plan_for(name, c)),
                None => DispatchView::Unknown,
            },
        }
    }
}

impl ActionRunner {
    /// No commands were given yet.
    pub fn new() -> (r: ActionRunner)
        ensures
            r.actions is None,
    {
        ActionRunner { actions: None }
    }

    /// Takes the commands, the first time.
    pub fn init(&mut self, actions: Vec<ActionEntry>) -> (r: Loaded)
        ensures
            match old(self).actions {
                Some(_) => r == Loaded::Late && final(self).actions == old(self).actions,
                None => final(self).actions == Some(actions) && r == if actions@.len() == 0 {
                    Loaded::Empty
                } else {
                    Loaded::Actions(actions.len())
                },
            },
    {
        if self.actions.is_some() {
            return Loaded::Late;
        }
        let n: usize = actions.len();
        self.actions = Some(actions);
        if n == 0 {
            Loaded::Empty
        } else {
            Loaded::Actions(n)
        }
    }

    /// What to do for a name.
    pub fn dispatch(&self, name: &str) -> (r: Dispatch)
        ensures
            r@ == dispatch_of(self.actions, name@),
    {
        proof {
            reveal_strlit("");
            assert(name@.len() == 0 ==> name@ =~= ""@);
        }
        if same_text(name, "") {
            return Dispatch::Ignore;
        }
        match &self.actions {
            None => Dispatch::Ignore,
            Some(list) => {
                let n: usize = list.len();
                let mut i: usize = n;
                assert(list@.take(n as int) =~= list@);
                while i > 0
                    invariant
                        n == list@.len(),
                        i <= n,
                        self.actions == Some(*list),
                        name@.len() > 0,
                        command_of(list@, name@) == command_of(list@.take(i as int), name@),
                    decreases i,
                {
                    proof {
                        let t = list@.take(i as int);
                        assert(t.last() == list@[i - 1]);
                        assert(t.drop_last() =~= list@.take(i - 1));
                    }
                    i = i - 1;
                    if same_text(list[i].name.as_str(), name) {
                        return Dispatch::Run(action_plan(name, list[i].command.as_str()));
                    }
                }
                Dispatch::Unknown
            },
        }
    }
}

/// A device can have nothing run but what the settings list: a command that runs is that of an
/// entry with the name it asked for.
pub proof fn law_only_listed_commands_run(actions: Seq<ActionEntry>, name: Seq<char>)
    requires
        command_of(actions, name) is Some,
    ensures
        exists|i: int|
            0 <= i < actions.len() && (#[trigger] actions[i]).name@ == name
                && actions[i].command@ == command_of(actions, name)->0,
    decreases actions.len(),
{
    let k = actions.len() - 1;
    if actions.last().name@ == name {
        assert(actions[k].name@ == name);
    } else {
        law_only_listed_commands_run(actions.drop_last(), name);
        let i = choose|i: int|
            0 <= i < actions.drop_last().len() && (#[trigger] actions.drop_last()[i]).name@ == name
                && actions.drop_last()[i].command@ == command_of(actions.drop_last(), name)->0;
        assert(actions[i].name@ == name);
    }
}

} // verus!
