//! The interactive session: which pane has the focus, what each key does, and
//! what the loop around it must do next.
use vstd::prelude::*;
use crate::entry::FileEntry;
use crate::nav::{DirInfo, selected_dir, self_moved_to};
use crate::selection::{selection_fits, wrap_next, wrap_prev};
use crate::share::{ShareInfo, ShareSet, admits, inserted_in_order, selection_after_removal};

verus! {

/// The pane that has the focus.
#[derive(Clone, Copy, Debug, PartialEq, Eq, Structural)]
pub enum CurrentBlock {
    Dir,
    Shares,
}

/// What a key asks for.
#[derive(Clone, Copy, Debug, PartialEq, Eq, Structural)]
pub enum Command {
    Quit,
    SwitchPanel,
    Parent,
    Child,
    Down,
    Up,
    Share,
    Unshare,
    ClearShares,
}

/// What the loop must do after a command.
#[derive(Clone, Copy, Debug, PartialEq, Eq, Structural)]
pub enum Effect {
    /// Nothing beyond redrawing.
    Nothing,
    /// Leave the session.
    Quit,
    /// The share list changed: tell the viewers.
    SharesChanged,
    /// List the directory above the current one and the one above that, and
    /// move up.
    EnterParent,
    /// List the selected directory and the current one, and move down.
    EnterChild,
    /// The selection moved: list the selected directory for the child pane.
    ReloadChild,
}

/// The command bound to a key: `Q` quits; `h` and `l` with control switch
/// panes, without it move up and down the directories; `j` and `k` move the
/// selection; `=` shares, `-` unshares, `C` clears the share list.
pub fn command_for_key(key: char, ctrl: bool) -> (r: Option<Command>)
    ensures
        r == (if key == 'Q' {
            Option::Some(Command::Quit)
        } else if (key == 'h' || key == 'l') && ctrl {
            Option::Some(Command::SwitchPanel)
        } else if key == 'h' {
            Option::Some(Command::Parent)
        } else if key == 'l' {
            Option::Some(Command::Child)
        } else if key == 'j' {
            Option::Some(Command::Down)
        } else if key == 'k' {
            Option::Some(Command::Up)
        } else if key == '=' {
            Option::Some(Command::Share)
        } else if key == '-' {
            Option::Some(Command::Unshare)
        } else if key == 'C' {
            Option::Some(Command::ClearShares)
        } else {
            Option::None
        }),
{
    if key == 'Q' {
        Some(Command::Quit)
    } else if (key == 'h' || key == 'l') && ctrl {
        Some(Command::SwitchPanel)
    } else if key == 'h' {
        Some(Command::Parent)
    } else if key == 'l' {
        Some(Command::Child)
    } else if key == 'j' {
        Some(Command::Down)
    } else if key == 'k' {
        Some(Command::Up)
    } else if key == '=' {
        Some(Command::Share)
    } else if key == '-' {
        Some(Command::Unshare)
    } else if key == 'C' {
        Some(Command::ClearShares)
    } else {
        None
    }
}

/// The other pane.
pub open spec fn other_block(b: CurrentBlock) -> CurrentBlock {
    match b {
        CurrentBlock::Dir => CurrentBlock::Shares,
        CurrentBlock::Shares => CurrentBlock::Dir,
    }
}

/// The session's state, beside the share list that it edits.
pub struct App {
    pub current_block: CurrentBlock,
    pub dir_info: DirInfo,
    pub share_info: ShareInfo,
}

impl App {
    /// The navigator is well formed, and the share cursor fits `shares`.
    pub open spec fn wf(&self, shares: ShareSet) -> bool {
        &&& self.dir_info.wf()
        &&& shares.wf()
        &&& selection_fits(self.share_info.selected, shares.entries@.len())
    }

    /// A session on `dir_info`, with the directory pane focused.
    pub fn new(dir_info: DirInfo, shares: &ShareSet) -> (r: App)
        requires
            dir_info.wf(),
            shares.wf(),
        ensures
            r.wf(*shares),
            r.current_block == CurrentBlock::Dir,
            r.dir_info == dir_info,
    {
        App { current_block: CurrentBlock::Dir, dir_info, share_info: ShareInfo::new(shares) }
    }

    pub fn get_current_block(&self) -> (r: CurrentBlock)
        ensures
            r == self.current_block,
    {
        self.current_block
    }

    pub fn set_current_block(&mut self, target_block: CurrentBlock)
        ensures
            final(self).current_block == target_block,
            final(self).dir_info == old(self).dir_info,
            final(self).share_info == old(self).share_info,
    {
        self.current_block = target_block;
    }

    /// The entry selected in the current directory pane.
    pub fn get_current_select_file(&self) -> (r: Option<FileEntry>)
        requires
            self.dir_info.wf(),
        ensures
            match self.dir_info.current.selected {
                Option::None => r is None,
                Option::Some(i) => r == Option::Some(self.dir_info.current.files@[i as int]),
            },
    {
        self.dir_info.selected_entry()
    }

    /// Carries out `cmd` on the session and on `shares`, and says what the
    /// loop must do next. Every change to the share list is reported as
    /// `Effect::SharesChanged`, and only a change is.
    pub fn handle(&mut self, cmd: Command, shares: &mut ShareSet) -> (effect: Effect)
        requires
            old(self).wf(*old(shares)),
        ensures
            final(self).wf(*final(shares)),
            handled(*old(self), *old(shares), cmd, *final(self), *final(shares), effect),
    {
        match cmd {
            Command::Quit => Effect::Quit,
            Command::SwitchPanel => {
                match self.current_block {
                    CurrentBlock::Dir => self.set_current_block(CurrentBlock::Shares),
                    CurrentBlock::Shares => self.set_current_block(CurrentBlock::Dir),
                }
                Effect::Nothing
            },
            Command::Parent => {
                if self.current_block == CurrentBlock::Dir && self.dir_info.parent.is_some() {
                    Effect::EnterParent
                } else {
                    Effect::Nothing
                }
            },
            Command::Child => {
                if self.current_block == CurrentBlock::Dir && self.dir_info.child_target().is_some() {
                    Effect::EnterChild
                } else {
                    Effect::Nothing
                }
            },
            Command::Down => {
                match self.current_block {
                    CurrentBlock::Dir => {
                        if self.dir_info.set_current_list_state_next() {
                            Effect::ReloadChild
                        } else {
                            Effect::Nothing
                        }
                    },
                    CurrentBlock::Shares => {
                        self.share_info.next(shares);
                        Effect::Nothing
                    },
                }
            },
            Command::Up => {
                match self.current_block {
                    CurrentBlock::Dir => {
                        if self.dir_info.set_current_list_state_prev() {
                            Effect::ReloadChild
                        } else {
                            Effect::Nothing
                        }
                    },
                    CurrentBlock::Shares => {
                        self.share_info.prev(shares);
                        Effect::Nothing
                    },
                }
            },
            Command::Share => {
                if self.current_block == CurrentBlock::Dir {
                    if let Some(file) = self.get_current_select_file() {
                        if self.share_info.add(shares, file) {
                            return Effect::SharesChanged;
                        }
                    }
                }
                Effect::Nothing
            },
            Command::Unshare => {
                if self.current_block == CurrentBlock::Shares && self.share_info.remove(shares) {
                    Effect::SharesChanged
                } else {
                    Effect::Nothing
                }
            },
            Command::ClearShares => {
                self.share_info.clear(shares);
                Effect::SharesChanged
            },
        }
    }
}

/// Only the share list and its cursor may have changed.
pub open spec fn keeps_session(a: App, b: App) -> bool {
    b.current_block == a.current_block && b.dir_info == a.dir_info
}

/// What `App::handle` does: `a` and `s` before, `b` and `t` after.
pub open spec fn handled(a: App, s: ShareSet, cmd: Command, b: App, t: ShareSet, effect: Effect) -> bool {
    let in_dir = a.current_block == CurrentBlock::Dir;
    let len = a.dir_info.current.files@.len();
    let shared = s.entries@.len();
    match cmd {
        Command::Quit => effect == Effect::Quit && b == a && t == s,
        Command::SwitchPanel => effect == Effect::Nothing && t == s && b.current_block
            == other_block(a.current_block) && b.dir_info == a.dir_info && b.share_info
            == a.share_info,
        Command::Parent => b == a && t == s && effect == (if in_dir && a.dir_info.parent is Some {
            Effect::EnterParent
        } else {
            Effect::Nothing
        }),
        Command::Child => b == a && t == s && effect == (if in_dir && selected_dir(
            a.dir_info.current,
        ) is Some {
            Effect::EnterChild
        } else {
            Effect::Nothing
        }),
        Command::Down => t == s && b.current_block == a.current_block && if in_dir {
            b.share_info == a.share_info && effect == (if len > 1 {
                Effect::ReloadChild
            } else {
                Effect::Nothing
            }) && (len > 1 ==> self_moved_to(
                a.dir_info,
                b.dir_info,
                wrap_next(a.dir_info.current.selected->0 as nat, len) as usize,
            )) && (len <= 1 ==> b.dir_info == a.dir_info)
        } else {
            effect == Effect::Nothing && b.dir_info == a.dir_info && b.share_info.selected
                == match a.share_info.selected {
                Option::None => Option::None,
                Option::Some(i) => Option::Some(wrap_next(i as nat, shared) as usize),
            }
        },
        Command::Up => t == s && b.current_block == a.current_block && if in_dir {
            b.share_info == a.share_info && effect == (if len > 1 {
                Effect::ReloadChild
            } else {
                Effect::Nothing
            }) && (len > 1 ==> self_moved_to(
                a.dir_info,
                b.dir_info,
                wrap_prev(a.dir_info.current.selected->0 as nat, len) as usize,
            )) && (len <= 1 ==> b.dir_info == a.dir_info)
        } else {
            effect == Effect::Nothing && b.dir_info == a.dir_info && b.share_info.selected
                == match a.share_info.selected {
                Option::None => Option::None,
                Option::Some(i) => Option::Some(wrap_prev(i as nat, shared) as usize),
            }
        },
        Command::Share => keeps_session(a, b) && match (in_dir, a.dir_info.current.selected) {
            (true, Option::Some(i)) => {
                let e = a.dir_info.current.files@[i as int];
                let changed = admits(s.entries@, e);
                &&& effect == (if changed {
                    Effect::SharesChanged
                } else {
                    Effect::Nothing
                })
                &&& changed ==> inserted_in_order(s.entries@, e, t.entries@)
                &&& !changed ==> t.entries@ == s.entries@
                &&& b.share_info.selected == (if a.share_info.selected is None && changed {
                    Option::Some(0usize)
                } else {
                    a.share_info.selected
                })
            },
            _ => effect == Effect::Nothing && b == a && t.entries@ == s.entries@,
        },
        Command::Unshare => keeps_session(a, b) && match (in_dir, a.share_info.selected) {
            (false, Option::Some(i)) => effect == Effect::SharesChanged && t.entries@
                == s.entries@.remove(i as int) && b.share_info.selected == selection_after_removal(
                i as nat,
                t.entries@.len(),
            ),
            _ => effect == Effect::Nothing && b == a && t.entries@ == s.entries@,
        },
        Command::ClearShares => keeps_session(a, b) && effect == Effect::SharesChanged
            && t.entries@.len() == 0 && b.share_info.selected is None,
    }
}

} // verus!
