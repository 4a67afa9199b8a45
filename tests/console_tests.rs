use lan_share::console::{command_for_key, App, Command, CurrentBlock, Effect};
use lan_share::entry::FileEntry;
use lan_share::nav::DirInfo;
use lan_share::share::ShareSet;
use lan_share::web::{viewer_step, ViewerAction, ViewerEvent};
use lan_share::PORT;

fn session() -> (App, ShareSet) {
    let nav = DirInfo::new(
        "/w".to_string(),
        vec![FileEntry::new("/w".to_string(), true)],
        vec![
            FileEntry::new("/w/b.txt".to_string(), false),
            FileEntry::new("/w/sub".to_string(), true),
            FileEntry::new("/w/a.txt".to_string(), false),
        ],
    );
    let shares = ShareSet::new();
    let app = App::new(nav, &shares);
    (app, shares)
}

#[test]
fn keys_map_to_commands() {
    assert_eq!(command_for_key('Q', false), Some(Command::Quit));
    assert_eq!(command_for_key('h', true), Some(Command::SwitchPanel));
    assert_eq!(command_for_key('l', true), Some(Command::SwitchPanel));
    assert_eq!(command_for_key('h', false), Some(Command::Parent));
    assert_eq!(command_for_key('l', false), Some(Command::Child));
    assert_eq!(command_for_key('j', false), Some(Command::Down));
    assert_eq!(command_for_key('k', true), Some(Command::Up));
    assert_eq!(command_for_key('=', false), Some(Command::Share));
    assert_eq!(command_for_key('-', false), Some(Command::Unshare));
    assert_eq!(command_for_key('C', false), Some(Command::ClearShares));
    assert_eq!(command_for_key('q', false), None);
}

#[test]
fn share_selected_file_announces_once() {
    let (mut app, mut shares) = session();
    assert_eq!(app.get_current_block(), CurrentBlock::Dir);
    assert_eq!(app.handle(Command::Share, &mut shares), Effect::Nothing);
    assert!(shares.entries.is_empty());
    assert_eq!(app.handle(Command::Down, &mut shares), Effect::ReloadChild);
    assert_eq!(app.get_current_select_file().unwrap().name, "a.txt");
    assert_eq!(app.handle(Command::Share, &mut shares), Effect::SharesChanged);
    assert_eq!(app.handle(Command::Share, &mut shares), Effect::Nothing);
    assert_eq!(shares.entries.len(), 1);
    assert_eq!(app.share_info.selected, Some(0));
}

#[test]
fn unshare_only_in_share_pane() {
    let (mut app, mut shares) = session();
    app.handle(Command::Down, &mut shares);
    app.handle(Command::Share, &mut shares);
    assert_eq!(app.handle(Command::Unshare, &mut shares), Effect::Nothing);
    assert_eq!(shares.entries.len(), 1);
    assert_eq!(app.handle(Command::SwitchPanel, &mut shares), Effect::Nothing);
    assert_eq!(app.current_block, CurrentBlock::Shares);
    assert_eq!(app.handle(Command::Unshare, &mut shares), Effect::SharesChanged);
    assert!(shares.entries.is_empty());
    assert_eq!(app.share_info.selected, None);
    assert_eq!(app.handle(Command::Unshare, &mut shares), Effect::Nothing);
}

#[test]
fn navigation_commands_ask_for_listings() {
    let (mut app, mut shares) = session();
    assert_eq!(app.handle(Command::Child, &mut shares), Effect::EnterChild);
    assert_eq!(app.handle(Command::Parent, &mut shares), Effect::EnterParent);
    app.set_current_block(CurrentBlock::Shares);
    assert_eq!(app.handle(Command::Child, &mut shares), Effect::Nothing);
    assert_eq!(app.handle(Command::Down, &mut shares), Effect::Nothing);
    assert_eq!(app.handle(Command::Quit, &mut shares), Effect::Quit);
}

#[test]
fn clear_always_announces() {
    let (mut app, mut shares) = session();
    assert_eq!(app.handle(Command::ClearShares, &mut shares), Effect::SharesChanged);
    assert!(shares.entries.is_empty());
    assert_eq!(app.share_info.selected, None);
}

#[test]
fn viewer_session_steps() {
    assert_eq!(viewer_step(ViewerEvent::Connected), ViewerAction::PushListing);
    assert_eq!(viewer_step(ViewerEvent::Changed), ViewerAction::PushListing);
    assert_eq!(viewer_step(ViewerEvent::Lagged), ViewerAction::PushListing);
    assert_eq!(viewer_step(ViewerEvent::RenderFailed), ViewerAction::Skip);
    assert_eq!(viewer_step(ViewerEvent::BusClosed), ViewerAction::Close);
    assert_eq!(viewer_step(ViewerEvent::SendFailed), ViewerAction::Close);
    assert_eq!(PORT, 33231);
}
