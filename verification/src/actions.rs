//! The command palette's state: the fixed list of commands and the small
//! active/filter/selection shell the renderer reads.
use vstd::prelude::*;

verus! {

/// A command the palette can run.
#[derive(Clone, Copy, PartialEq, Eq, Structural, Debug)]
pub enum CommandAction {
    OpenFile,
    ChangeColorScheme,
}

/// The display name of a command.
pub open spec fn command_name(a: CommandAction) -> Seq<char> {
    match a {
        CommandAction::OpenFile => "Open File"@,
        CommandAction::ChangeColorScheme => "Change Color Scheme"@,
    }
}

impl CommandAction {
    /// The display name of the command.
    pub fn name(&self) -> (r: &'static str)
        ensures
            r@ == command_name(*self),
    {
        match self {
            Self::OpenFile => "Open File",
            Self::ChangeColorScheme => "Change Color Scheme",
        }
    }
}

/// The command palette: inactive until opened, with the two commands the
/// editor offers.
pub struct Actions {
    pub active: bool,
    pub part: String,
    pub selected: u32,
    pub commands: Vec<CommandAction>,
}

impl Actions {
    /// A closed palette offering the two commands, in the order they are
    /// drawn.
    pub fn new() -> (a: Actions)
        ensures
            a.active == false,
            a.part@ == Seq::<char>::empty(),
            a.selected == 0,
            a.commands@ == seq![CommandAction::OpenFile, CommandAction::ChangeColorScheme],
    {
        let mut commands: Vec<CommandAction> = Vec::new();
        commands.push(CommandAction::OpenFile);
        commands.push(CommandAction::ChangeColorScheme);
        proof {
            assert(commands@ =~= seq![CommandAction::OpenFile, CommandAction::ChangeColorScheme]);
        }
        Actions { active: false, part: String::new(), selected: 0, commands }
    }

    pub fn get_items(&self) -> (r: &Vec<CommandAction>)
        ensures
            r@ == self.commands@,
    {
        &self.commands
    }

    pub fn activate(&mut self)
        ensures
            *final(self) == (Actions { active: true, ..*old(self) }),
    {
        self.active = true;
    }

    pub fn selected_line(&self) -> (r: u32)
        ensures
            r == self.selected,
    {
        self.selected
    }

    pub fn is_active(&self) -> (r: bool)
        ensures
            r == self.active,
    {
        self.active
    }

    pub fn deactivate(&mut self)
        ensures
            *final(self) == (Actions { active: false, ..*old(self) }),
    {
        self.active = false;
    }

    pub fn inserted_part(&self) -> (r: &String)
        ensures
            r@ == self.part@,
    {
        &self.part
    }
}

} // verus!
