//! The demo items offered on an empty screen.
use crate::commands::{
    add_app, add_app_to_group, add_folder, add_group, has_group, is_group_with, push_into_group,
};
use crate::config::Config;
use crate::models::{is_random_uuid, ItemId, ItemView};
use vstd::prelude::*;

verus! {

pub open spec fn demo_app(id: ItemId, title: Seq<char>, path: Seq<char>) -> ItemView {
    ItemView::App { id, title, icon: None, path }
}

pub open spec fn demo_folder(id: ItemId, title: Seq<char>, path: Seq<char>) -> ItemView {
    ItemView::Folder { id, title, icon: None, path }
}

pub open spec fn demo_group(id: ItemId, title: Seq<char>) -> ItemView {
    ItemView::Group { id, title, icon: None, items: Seq::empty() }
}

/// The items after adding the demo set with the ids `ids`: four system apps
/// and two folders at the root, a group "Games" holding Steam, and a group
/// "Work" holding Notepad. Each group's app goes into the first root group
/// with that group's id.
pub open spec fn with_demo_items(s: Seq<ItemView>, ids: Seq<ItemId>) -> Seq<ItemView> {
    let notepad = "C:\\Windows\\System32\\notepad.exe"@;
    let s1 = s + seq![
        demo_app(ids[0], "Notepad"@, notepad),
        demo_app(ids[1], "Calculator"@, "C:\\Windows\\System32\\calc.exe"@),
        demo_app(ids[2], "Command Prompt"@, "C:\\Windows\\System32\\cmd.exe"@),
        demo_app(ids[3], "Paint"@, "C:\\Windows\\System32\\mspaint.exe"@),
        demo_folder(ids[4], "Documents"@, "C:\\Users\\X4Lo\\Documents"@),
        demo_folder(ids[5], "Downloads"@, "C:\\Users\\X4Lo\\Downloads"@),
        demo_group(ids[6], "Games"@),
    ];
    let s2 = push_into_group(
        s1,
        ids[6],
        demo_app(ids[7], "Steam"@, "C:\\Program Files (x86)\\Steam\\steam.exe"@),
    );
    let s3 = s2.push(demo_group(ids[8], "Work"@));
    push_into_group(s3, ids[8], demo_app(ids[9], "Notepad"@, notepad))
}

/// Adds the demo items (see `with_demo_items`), with fresh ids.
pub fn add_demo_items(config: &mut Config)
    ensures
        final(config).same_settings(*old(config)),
        exists|ids: Seq<ItemId>|
            ids.len() == 10 && (forall|k: int| 0 <= k < 10 ==> is_random_uuid(#[trigger] ids[k].0))
                && final(config).items_model() == #[trigger] with_demo_items(
                old(config).items_model(),
                ids,
            ),
{
    let ghost s = config.items_model();
    let notepad = "C:\\Windows\\System32\\notepad.exe";
    let a0 = add_app(config, String::from_str("Notepad"), String::from_str(notepad));
    let a1 = add_app(
        config,
        String::from_str("Calculator"),
        String::from_str("C:\\Windows\\System32\\calc.exe"),
    );
    let a2 = add_app(
        config,
        String::from_str("Command Prompt"),
        String::from_str("C:\\Windows\\System32\\cmd.exe"),
    );
    let a3 = add_app(
        config,
        String::from_str("Paint"),
        String::from_str("C:\\Windows\\System32\\mspaint.exe"),
    );
    let f4 = add_folder(
        config,
        String::from_str("Documents"),
        String::from_str("C:\\Users\\X4Lo\\Documents"),
    );
    let f5 = add_folder(
        config,
        String::from_str("Downloads"),
        String::from_str("C:\\Users\\X4Lo\\Downloads"),
    );
    let g6 = add_group(config, String::from_str("Games"));
    let ghost s1 = config.items_model();
    assert(is_group_with(s1[s1.len() - 1], g6));
    assert(has_group(s1, g6));
    let r7 = add_app_to_group(
        config,
        g6,
        String::from_str("Steam"),
        String::from_str("C:\\Program Files (x86)\\Steam\\steam.exe"),
    );
    let a7 = match r7 {
        Ok(id) => id,
        Err(_) => {
            proof {
                assert(false);
            }
            g6
        },
    };
    let g8 = add_group(config, String::from_str("Work"));
    let ghost s3 = config.items_model();
    assert(is_group_with(s3[s3.len() - 1], g8));
    assert(has_group(s3, g8));
    let r9 = add_app_to_group(config, g8, String::from_str("Notepad"), String::from_str(notepad));
    let a9 = match r9 {
        Ok(id) => id,
        Err(_) => {
            proof {
                assert(false);
            }
            g8
        },
    };
    proof {
        let ids = seq![a0, a1, a2, a3, f4, f5, g6, a7, g8, a9];
        assert(s1 =~= s + seq![
            demo_app(ids[0], "Notepad"@, notepad@),
            demo_app(ids[1], "Calculator"@, "C:\\Windows\\System32\\calc.exe"@),
            demo_app(ids[2], "Command Prompt"@, "C:\\Windows\\System32\\cmd.exe"@),
            demo_app(ids[3], "Paint"@, "C:\\Windows\\System32\\mspaint.exe"@),
            demo_folder(ids[4], "Documents"@, "C:\\Users\\X4Lo\\Documents"@),
            demo_folder(ids[5], "Downloads"@, "C:\\Users\\X4Lo\\Downloads"@),
            demo_group(ids[6], "Games"@),
        ]);
        assert(config.items_model() == with_demo_items(s, ids));
        assert(forall|k: int| 0 <= k < 10 ==> is_random_uuid(#[trigger] ids[k].0));
    }
}

} // verus!
