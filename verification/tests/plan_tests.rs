use dotlink::backup::Timestamp;
use dotlink::classify::{InstallAction, LinkObservation, Occupant, choose_install_action};
use dotlink::errors::LinkError;
use dotlink::plan::{
    InstallPlan, canonicalize_link_parent, canonicalize_origin, plan_install, plan_install_now,
};

fn b(s: &str) -> Vec<u8> {
    s.as_bytes().to_vec()
}

fn obs(parent: Option<&str>, occupant: Occupant) -> LinkObservation {
    LinkObservation { parent_canonical: parent.map(b), occupant }
}

fn fixed_ts() -> Timestamp {
    Timestamp { year: 2023, month: 1, day: 5, hour: 7, minute: 9, second: 3 }
}

#[test]
fn classify_missing_parent_creates_dir() {
    let o = obs(None, Occupant::Vacant);
    assert_eq!(
        choose_install_action(&b("/dots/vimrc"), &o),
        InstallAction::CreateDirAndLink
    );
}

#[test]
fn classify_matching_symlink_skips() {
    let o = obs(Some("/home/u"), Occupant::SymlinkTo(b("/dots/vimrc")));
    assert_eq!(choose_install_action(&b("/dots/vimrc"), &o), InstallAction::Skip);
}

#[test]
fn classify_foreign_symlink_backs_up() {
    let o = obs(Some("/home/u"), Occupant::SymlinkTo(b("/elsewhere/vimrc")));
    assert_eq!(
        choose_install_action(&b("/dots/vimrc"), &o),
        InstallAction::BackupAndLink
    );
}

#[test]
fn classify_occupied_path_backs_up() {
    let o = obs(Some("/home/u"), Occupant::Present);
    assert_eq!(
        choose_install_action(&b("/dots/vimrc"), &o),
        InstallAction::BackupAndLink
    );
}

#[test]
fn classify_free_path_links() {
    let o = obs(Some("/home/u"), Occupant::Vacant);
    assert_eq!(choose_install_action(&b("/dots/vimrc"), &o), InstallAction::Link);
}

#[test]
fn fresh_link_planned() {
    // The origin exists, the link path is free, its parent exists.
    let o = obs(Some("/home/u"), Occupant::Vacant);
    match plan_install(&b("/dots/vimrc"), &b("/home/u/.vimrc"), &o, &fixed_ts()) {
        Ok(InstallPlan::Link { link, origin }) => {
            assert_eq!(link, b("/home/u/.vimrc"));
            assert_eq!(origin, b("/dots/vimrc"));
        },
        _ => panic!("expected a plain link plan"),
    }
}

#[test]
fn already_linked_plans_skip() {
    // The link is already a symlink to the origin: no backup, just a skip.
    let o = obs(Some("/home/u"), Occupant::SymlinkTo(b("/dots/vimrc")));
    match plan_install(&b("/dots/vimrc"), &b("/home/u/.vimrc"), &o, &fixed_ts()) {
        Ok(InstallPlan::Skip) => {},
        _ => panic!("expected a skip plan"),
    }
}

#[test]
fn regular_file_backed_up_then_linked() {
    // A regular file occupies the link path: it is renamed to the
    // timestamped backup name before the symlink is created.
    let o = obs(Some("/home/u"), Occupant::Present);
    match plan_install(&b("/dots/bashrc"), &b("/home/u/.bashrc"), &o, &fixed_ts()) {
        Ok(InstallPlan::BackupAndLink { backup_from, backup_to, link, origin }) => {
            assert_eq!(backup_from, b("/home/u/.bashrc"));
            assert_eq!(backup_to, b("/home/u/.bashrc-backup-2023-01-05-07-09-03"));
            assert_eq!(link, b("/home/u/.bashrc"));
            assert_eq!(origin, b("/dots/bashrc"));
        },
        _ => panic!("expected a backup-and-link plan"),
    }
}

#[test]
fn missing_parent_planned_as_create_dir() {
    let o = obs(None, Occupant::Vacant);
    match plan_install(&b("/dots/app.yml"), &b("/home/u/.config/app/app.yml"), &o, &fixed_ts()) {
        Ok(InstallPlan::CreateDirAndLink { parent, link, origin }) => {
            assert_eq!(parent, b("/home/u/.config/app"));
            assert_eq!(link, b("/home/u/.config/app/app.yml"));
            assert_eq!(origin, b("/dots/app.yml"));
        },
        _ => panic!("expected a create-dir-and-link plan"),
    }
}

#[test]
fn root_as_link_is_invalid() {
    let o = obs(Some("/"), Occupant::Present);
    match plan_install(&b("/dots/x"), &b("/"), &o, &fixed_ts()) {
        Err(LinkError::InvalidPath { path }) => assert_eq!(path, b("/")),
        _ => panic!("expected an invalid-path error"),
    }
}

#[test]
fn second_run_skips_after_install() {
    // Installing, then observing the state the plan establishes, plans a
    // skip: the second run performs no writes.
    let origin = b("/dots/vimrc");
    let link = b("/home/u/.vimrc");
    let first = obs(Some("/home/u"), Occupant::Vacant);
    match plan_install(&origin, &link, &first, &fixed_ts()) {
        Ok(InstallPlan::Link { .. }) => {},
        _ => panic!("expected a plain link plan on the first run"),
    }
    let second = obs(Some("/home/u"), Occupant::SymlinkTo(origin.clone()));
    match plan_install(&origin, &link, &second, &fixed_ts()) {
        Ok(InstallPlan::Skip) => {},
        _ => panic!("expected a skip plan on the second run"),
    }
}

#[test]
fn missing_origin_reported() {
    // The origin does not exist under the dotfiles root: the pair is
    // abandoned with an origin-missing error and nothing is planned.
    match canonicalize_origin(&b("/dots/missing"), None) {
        Err(LinkError::OriginMissing { path }) => assert_eq!(path, b("/dots/missing")),
        _ => panic!("expected an origin-missing error"),
    }
}

#[test]
fn existing_origin_canonicalized() {
    match canonicalize_origin(&b("/dots/./vimrc"), Some(b("/dots/vimrc"))) {
        Ok(c) => assert_eq!(c, b("/dots/vimrc")),
        _ => panic!("expected the canonical origin"),
    }
}

#[test]
fn clock_backed_plan_has_timestamped_backup_name() {
    // Runs the clock-reading path: the backup destination must be the link
    // name plus "-backup-" plus a dash-separated timestamp of two-digit
    // calendar fields (and a four-digit year).
    let o = obs(Some("/home/u"), Occupant::Present);
    match plan_install_now(&b("/dots/bashrc"), &b("/home/u/.bashrc"), &o) {
        Ok(InstallPlan::BackupAndLink { backup_from, backup_to, .. }) => {
            assert_eq!(backup_from, b("/home/u/.bashrc"));
            let prefix = b("/home/u/.bashrc-backup-");
            assert_eq!(&backup_to[..prefix.len()], &prefix[..]);
            let stamp = &backup_to[prefix.len()..];
            assert_eq!(stamp.len(), 19);
            for (i, byte) in stamp.iter().enumerate() {
                if i == 4 || i == 7 || i == 10 || i == 13 || i == 16 {
                    assert_eq!(*byte, b'-');
                } else {
                    assert!(byte.is_ascii_digit());
                }
            }
        },
        _ => panic!("expected a backup-and-link plan"),
    }
}

#[test]
fn cli_defaults_shape() {
    let cli = dotlink::Cli { dir: String::from("$HOME/.cfg"), config: String::from("symlinks.yml") };
    assert_eq!(cli.dir, "$HOME/.cfg");
    assert_eq!(cli.config, "symlinks.yml");
}

#[test]
fn vanished_parent_reported() {
    match canonicalize_link_parent(&b("/home/u"), &b(".vimrc"), None) {
        Err(LinkError::InvalidPath { path }) => assert_eq!(path, b("/home/u/.vimrc")),
        _ => panic!("expected an invalid-path error"),
    }
    match canonicalize_link_parent(&b("/home/sym"), &b(".vimrc"), Some(b("/home/u"))) {
        Ok(p) => assert_eq!(p, b("/home/u")),
        _ => panic!("expected the canonical parent"),
    }
}
