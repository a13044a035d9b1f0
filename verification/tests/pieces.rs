use graph_state::cursor::{ScanCursorSlot, SinkCursor};
use graph_state::first_build_hold::{holds_unconsulted, FirstBuildHold};
use graph_state::fixtures::{
    sample_workspace, write_common_module, write_extension_config, write_extension_workspace,
    WorkspaceFile,
};
use graph_state::inner::Inner;
use graph_state::locks::{claim_hook_offer, lock_recover, LockRefusal};
use graph_state::path_index::{copy_bytes, same_bytes, PathIndex};
use graph_state::paths::{comes_before, copy_path, key_of, same_path, PathPart, SystemPath};
use graph_state::text::{decimal_text, maybe_text, two_digits_text};
use graph_state::types::GraphStatus;

#[test]
fn a_closed_slot_holds_nothing_and_takes_nothing() {
    let mut slot = ScanCursorSlot::default();
    let (cursor, epoch) = slot.open(|| SinkCursor(4)).unwrap();
    assert_eq!((cursor, epoch), (SinkCursor(4), 1));
    assert_eq!(slot.close(), Some(SinkCursor(4)));
    assert!(slot.is_closed());
    assert_eq!(slot.holds(), None);
    // The drain that comes back to it is refused, and nothing subscribes again.
    assert!(!slot.advance(epoch, SinkCursor(5)));
    assert_eq!(slot.open(|| unreachable!()), None);
    assert_eq!(slot.close(), None);
    assert_eq!(slot.peek(), None);
}

#[test]
fn a_drain_writes_back_under_its_own_epoch() {
    let mut slot = ScanCursorSlot::default();
    assert!(!slot.is_closed());
    let (_, epoch) = slot.open(|| SinkCursor(4)).unwrap();
    assert!(slot.advance(epoch, SinkCursor(9)));
    assert_eq!(slot.peek(), Some(SinkCursor(9)));
    assert!(!slot.advance(epoch + 1, SinkCursor(10)));
    assert_eq!(slot.holds(), Some(SinkCursor(9)));
    assert_eq!(slot.open(|| unreachable!()), Some((SinkCursor(9), epoch)));
}

#[test]
fn a_poisoned_lock_is_recovered() {
    assert_eq!(lock_recover(Ok::<u8, u8>(3)), 3);
    assert_eq!(lock_recover(Err::<u8, u8>(4)), 4);
    let poisoned = std::sync::Mutex::new(7);
    let held = std::sync::Arc::new(poisoned);
    let guard = lock_recover(held.lock().map_err(std::sync::PoisonError::into_inner));
    assert_eq!(*guard, 7);
}

#[test]
fn an_offer_has_one_owner() {
    assert_eq!(claim_hook_offer(Ok::<u8, LockRefusal<u8>>(3)), Some(3));
    assert_eq!(claim_hook_offer(Err::<u8, _>(LockRefusal::Poisoned(4))), Some(4));
    assert_eq!(claim_hook_offer(Err::<u8, LockRefusal<u8>>(LockRefusal::WouldBlock)), None);
}

/// A path as the system takes it apart.
fn path(spelled: &[u8]) -> SystemPath {
    let parts = match std::str::from_utf8(spelled) {
        Ok(text) => std::path::Path::new(text)
            .components()
            .map(|part| match part {
                std::path::Component::Prefix(prefix) => {
                    PathPart::Prefix(prefix.as_os_str().as_encoded_bytes().to_vec())
                }
                std::path::Component::RootDir => PathPart::Root,
                std::path::Component::CurDir => PathPart::Here,
                std::path::Component::ParentDir => PathPart::Above,
                std::path::Component::Normal(name) => {
                    PathPart::Name(name.as_encoded_bytes().to_vec())
                }
            })
            .collect(),
        Err(_) => vec![PathPart::Root, PathPart::Name(spelled.to_vec())],
    };
    SystemPath { spelled: spelled.to_vec(), parts }
}

#[test]
fn a_path_is_its_components() {
    assert!(same_path(&path(b"/a/b"), &path(b"//a/./b/")));
    assert!(same_path(&path(b"/a"), &path(b"/a/")));
    assert!(!same_path(&path(b"/a"), &path(b"a")) && !same_path(&path(b"a"), &path(b"./a")));
    assert!(!same_path(&path(b"/a/.."), &path(b"/")));
    assert_eq!(key_of(&path(b"//a//b/")), key_of(&path(b"/a/b")));
    assert_ne!(key_of(&path(b"/a/b")), key_of(&path(b"/ab")));
    assert_eq!(key_of(&path(b"/a")), vec![1, 0, 4, 1, b'a', 0]);
    assert_eq!(key_of(&path(b"")), Vec::<u8>::new());
    let spelled = path(b"//a//b/");
    assert_eq!(copy_path(&spelled), spelled);
}

/// How a system takes a path apart is its own affair: one with two separators and drives hands over
/// the components it found, and two spellings of them are one path.
#[test]
fn the_system_says_where_a_path_comes_apart() {
    let on_a_drive = |spelled: &[u8], name: &[u8]| SystemPath {
        spelled: spelled.to_vec(),
        parts: vec![
            PathPart::Prefix(b"C:".to_vec()),
            PathPart::Root,
            PathPart::Name(b"ws".to_vec()),
            PathPart::Name(name.to_vec()),
        ],
    };
    let back = on_a_drive(b"C:\\ws\\a", b"a");
    let forward = on_a_drive(b"C:/ws/a", b"a");
    let other = on_a_drive(b"C:/ws/b", b"b");
    assert!(same_path(&back, &forward) && key_of(&back) == key_of(&forward));
    assert!(comes_before(&back, &other) && !comes_before(&back, &forward));
    assert!(comes_before(&back, &path(b"/ws")), "a prefix comes before a root");
}

#[test]
fn paths_order_by_their_components() {
    let first = |a: &[u8], b: &[u8]| comes_before(&path(a), &path(b));
    // By their bytes the dash would come first.
    assert!(first(b"/a/b", b"/a-") && !first(b"/a-", b"/a/b"));
    assert!(first(b"/a", b"/a/b") && !first(b"/a/b", b"/a"));
    assert!(!first(b"/a/", b"/a") && !first(b"/a", b"/a//"));
    let ordered = ["", "/", "/z", ".", "..", "-", "a"];
    for (i, a) in ordered.iter().enumerate() {
        for (j, b) in ordered.iter().enumerate() {
            assert_eq!(first(a.as_bytes(), b.as_bytes()), i < j);
            let of_system = std::path::Path::new(a) < std::path::Path::new(b);
            assert_eq!(of_system, i < j, "the order the system's own paths have");
        }
    }
}

#[test]
fn an_index_tells_what_it_has_seen() {
    let mut index = PathIndex::new();
    assert_eq!(index.position(b"a"), None);
    for i in 0..300u32 {
        assert!(index.insert(format!("path/{i}").as_bytes()));
    }
    for i in 0..300u32 {
        assert!(!index.insert(format!("path/{i}").as_bytes()));
        assert_eq!(index.position(format!("path/{i}").as_bytes()), Some(i as usize));
    }
    assert!(index.insert(b""));
    assert_eq!(index.position(b""), Some(300));
    assert!(same_bytes(b"ab", b"ab") && !same_bytes(b"ab", b"ac") && !same_bytes(b"a", b"ab"));
    assert_eq!(copy_bytes(b"abc"), b"abc".to_vec());
}

#[test]
fn numbers_are_written_in_decimal() {
    for n in [0u64, 7, 9, 10, 99, 100, 1205, u64::MAX] {
        assert_eq!(decimal_text(n), format!("{n}"));
        assert_eq!(two_digits_text(n), format!("{n:02}"));
        assert_eq!(maybe_text(Some(n)), format!("{:?}", Some(n)));
    }
    assert_eq!(maybe_text(None), "None");
}

fn listed(files: &[WorkspaceFile]) -> Vec<&str> {
    files.iter().map(|file| file.path.as_str()).collect()
}

#[test]
fn a_common_module_is_a_descriptor_and_a_text() {
    let mut files = Vec::new();
    write_common_module(&mut files, "Сервер", true, "тело");
    assert_eq!(
        listed(&files),
        vec!["CommonModules/Сервер.xml", "CommonModules/Сервер/Ext/Module.bsl"],
    );
    assert_eq!(files[1].text, "тело");
    assert_eq!(
        files[0].text,
        r#"<?xml version="1.0" encoding="UTF-8"?>
<MetaDataObject xmlns="http://v8.1c.ru/8.3/MDClasses" xmlns:v8="http://v8.1c.ru/8.1/data/core">
	<CommonModule uuid="00000000-0000-0000-0000-000000000012">
		<Properties>
			<Name>Сервер</Name>
			<Global>false</Global>
			<ClientManagedApplication>false</ClientManagedApplication>
			<Server>true</Server>
			<ExternalConnection>false</ExternalConnection>
			<ClientOrdinaryApplication>false</ClientOrdinaryApplication>
			<ServerCall>false</ServerCall>
			<Privileged>false</Privileged>
			<ReturnValuesReuse>DontUse</ReturnValuesReuse>
		</Properties>
	</CommonModule>
</MetaDataObject>"#,
    );
    let mut short = Vec::new();
    write_common_module(&mut short, "M", false, "");
    assert!(short[0].text.contains("0000000001\">"));
    assert!(short[0].text.contains("<ClientManagedApplication>true<"));
}

#[test]
fn the_sample_workspace_is_two_modules() {
    let mut files = Vec::new();
    sample_workspace(&mut files);
    assert_eq!(files.len(), 4);
    assert_eq!(files[1].path, "CommonModules/Клиент/Ext/Module.bsl");
    assert!(files[1].text.contains("Сервер.Считать();"));
    assert!(files[3].text.starts_with("&НаСервере\n"));
}

#[test]
fn a_dependency_edge_moves_only_the_config() {
    let mut without = Vec::new();
    let mut with = Vec::new();
    write_extension_workspace(&mut without, false);
    write_extension_workspace(&mut with, true);
    assert_eq!(without.len(), 8);
    assert_eq!(without[..7], with[..7]);
    assert_ne!(without[7], with[7]);
    assert_eq!(
        with[7].text,
        "[source]\nroot = \".\"\nextensions = [\n  { name = \"a\", path = \"ext/a\" },\n  \
         { name = \"b\", path = \"ext/b\", dependsOn = [\"a\"] },\n]\n",
    );
    let mut config = Vec::new();
    write_extension_config(&mut config, false);
    assert_eq!(config[0], without[7]);
    assert_eq!(config[0].path, "bsl-analyzer.toml");
}

/// One boot, one reservation.
#[test]
fn a_hold_does_not_nest() {
    let mut hold = FirstBuildHold::Unarmed;
    assert!(hold.arm());
    assert!(!hold.arm());
    hold.hold_the_first_build(|| false);
    assert_eq!(hold, FirstBuildHold::Armed);
    hold.hold_the_first_build(|| true);
    assert_eq!(hold, FirstBuildHold::Held);
    assert!(!hold.arm());
    hold.hold_the_first_build(|| unreachable!());
    assert!(hold.take());
    assert_eq!(hold, FirstBuildHold::Unarmed);
    hold.hold_the_first_build(|| unreachable!());
    assert!(!hold.take());
}

#[test]
fn a_held_graph_is_claimed_and_unpublished() {
    let mut inner = Inner::for_workspace();
    assert!(!holds_unconsulted(&inner, false));
    inner.status = GraphStatus::Loading;
    assert!(holds_unconsulted(&inner, false));
    assert!(!holds_unconsulted(&inner, true));
}
