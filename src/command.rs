//! Commands decoded from mail subjects, and how they change the catalog.
use vstd::prelude::*;
use crate::catalog::{
    catalog_wf, lemma_merge_link_idempotent, lemma_merge_link_wf, merge_link, CategoryView, Link,
    RstDoc,
};

verus! {

/// The commands that a subject line may carry.
#[derive(PartialEq, Eq, Structural, Debug, Clone, Copy)]
pub enum MailCommand {
    LINK,
}

/// The operations of the `LINK` command.
#[derive(PartialEq, Eq, Structural, Debug, Clone, Copy)]
pub enum MailOperation {
    ADD,
}

/// Whether two pieces of text are equal.
fn same_text(a: &str, b: &str) -> (r: bool)
    ensures
        r == (a@ == b@),
{
    a.to_owned() == b.to_owned()
}

impl MailCommand {
    pub fn from_str(s: &str) -> (r: Option<MailCommand>)
        ensures
            r == (if s@ == "LINK"@ {
                Some(MailCommand::LINK)
            } else {
                None
            }),
    {
        if same_text(s, "LINK") {
            Some(MailCommand::LINK)
        } else {
            None
        }
    }

    pub fn as_str(&self) -> (r: &'static str)
        ensures
            r@ == "LINK"@,
    {
        "LINK"
    }
}

impl MailOperation {
    pub fn from_str(s: &str) -> (r: Option<MailOperation>)
        ensures
            r == (if s@ == "ADD"@ {
                Some(MailOperation::ADD)
            } else {
                None
            }),
    {
        if same_text(s, "ADD") {
            Some(MailOperation::ADD)
        } else {
            None
        }
    }

    pub fn as_str(&self) -> (r: &'static str)
        ensures
            r@ == "ADD"@,
    {
        "ADD"
    }
}

/// The abstract value of a [`CsvCommand`].
pub struct CommandView {
    pub command: Seq<char>,
    pub operation: Seq<char>,
    pub category: Seq<char>,
    pub subcategory: Seq<char>,
    pub url: Seq<char>,
}

/// One command as decoded from a subject line:
/// `command;operation;category;subcategory;url`.
pub struct CsvCommand {
    pub command: String,
    pub operation: String,
    pub category: String,
    pub subcategory: String,
    pub url: String,
}

impl View for CsvCommand {
    type V = CommandView;

    open spec fn view(&self) -> CommandView {
        CommandView {
            command: self.command@,
            operation: self.operation@,
            category: self.category@,
            subcategory: self.subcategory@,
            url: self.url@,
        }
    }
}

/// What applying a command did.
#[derive(PartialEq, Eq, Structural, Debug, Clone, Copy)]
pub enum Dispatch {
    /// The link was merged into the catalog.
    Applied,
    /// The command is not one of [`MailCommand`]; it was skipped.
    UnknownCommand,
    /// The operation is not one of [`MailOperation`]; it was skipped.
    UnknownOperation,
}

/// The id that every link added by mail carries.
pub const MAIL_LINK_ID: u16 = 1;

/// How a command is classified.
pub open spec fn dispatch_of(cmd: CommandView) -> Dispatch {
    if cmd.command != "LINK"@ {
        Dispatch::UnknownCommand
    } else if cmd.operation != "ADD"@ {
        Dispatch::UnknownOperation
    } else {
        Dispatch::Applied
    }
}

/// The catalog after a command: `LINK;ADD` merges the url under its key with
/// the mail id; anything else leaves the catalog as it was.
pub open spec fn apply_command(list: Seq<CategoryView>, cmd: CommandView) -> Seq<CategoryView> {
    if dispatch_of(cmd) == Dispatch::Applied {
        merge_link(list, cmd.category, cmd.subcategory, (MAIL_LINK_ID, cmd.url))
    } else {
        list
    }
}

pub open spec fn command_views(v: Seq<CsvCommand>) -> Seq<CommandView> {
    v.map_values(|c: CsvCommand| c@)
}

/// The catalog after the commands, applied in order.
pub open spec fn apply_commands(list: Seq<CategoryView>, cmds: Seq<CommandView>) -> Seq<CategoryView>
    decreases cmds.len(),
{
    if cmds.len() == 0 {
        list
    } else {
        apply_command(apply_commands(list, cmds.drop_last()), cmds.last())
    }
}

impl RstDoc {
    /// Applies one decoded command to the catalog.
    pub fn apply(&mut self, cmd: &CsvCommand) -> (r: Dispatch)
        ensures
            r == dispatch_of(cmd@),
            final(self)@ == apply_command(old(self)@, cmd@),
    {
        match MailCommand::from_str(cmd.command.as_str()) {
            Some(MailCommand::LINK) => match MailOperation::from_str(cmd.operation.as_str()) {
                Some(MailOperation::ADD) => {
                    let link = Link { id: MAIL_LINK_ID, link: cmd.url.clone() };
                    self.append_link(&cmd.category, &cmd.subcategory, &link);
                    Dispatch::Applied
                },
                None => Dispatch::UnknownOperation,
            },
            None => Dispatch::UnknownCommand,
        }
    }
}

impl RstDoc {
    /// Applies the commands in order, and says for each what was done.
    pub fn apply_all(&mut self, cmds: &Vec<CsvCommand>) -> (r: Vec<Dispatch>)
        ensures
            final(self)@ == apply_commands(old(self)@, command_views(cmds@)),
            r@ == command_views(cmds@).map_values(|c: CommandView| dispatch_of(c)),
    {
        let ghost before = self@;
        let ghost all = command_views(cmds@);
        let mut done: Vec<Dispatch> = Vec::new();
        let mut k: usize = 0;
        while k < cmds.len()
            invariant
                0 <= k <= cmds.len(),
                all == command_views(cmds@),
                self@ == apply_commands(before, all.take(k as int)),
                done@ == all.take(k as int).map_values(|c: CommandView| dispatch_of(c)),
            decreases cmds.len() - k,
        {
            assert(all[k as int] == cmds@[k as int]@);
            let d = self.apply(&cmds[k]);
            done.push(d);
            assert(all.take(k + 1).drop_last() =~= all.take(k as int));
            assert(done@ =~= all.take(k + 1).map_values(|c: CommandView| dispatch_of(c)));
            k += 1;
        }
        assert(all.take(k as int) =~= all);
        done
    }
}

/// Applying the same command twice gives the catalog that applying it once
/// gave.
pub proof fn lemma_apply_idempotent(list: Seq<CategoryView>, cmd: CommandView)
    ensures
        apply_command(apply_command(list, cmd), cmd) == apply_command(list, cmd),
{
    lemma_merge_link_idempotent(list, cmd.category, cmd.subcategory, (MAIL_LINK_ID, cmd.url));
}

/// Applying a command to a well-formed catalog leaves it well formed: keys
/// stay unique, and so do the links of each entry.
pub proof fn lemma_apply_wf(list: Seq<CategoryView>, cmd: CommandView)
    requires
        catalog_wf(list),
    ensures
        catalog_wf(apply_command(list, cmd)),
{
    lemma_merge_link_wf(list, cmd.category, cmd.subcategory, (MAIL_LINK_ID, cmd.url));
}

/// Applying commands one after the other to a well-formed catalog leaves it
/// well formed.
pub proof fn lemma_apply_commands_wf(list: Seq<CategoryView>, cmds: Seq<CommandView>)
    requires
        catalog_wf(list),
    ensures
        catalog_wf(apply_commands(list, cmds)),
    decreases cmds.len(),
{
    if cmds.len() > 0 {
        lemma_apply_commands_wf(list, cmds.drop_last());
        lemma_apply_wf(apply_commands(list, cmds.drop_last()), cmds.last());
    }
}

} // verus!
