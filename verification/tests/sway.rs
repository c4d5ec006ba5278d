use mde::applets::{app_switcher, dock};
use mde::sway::{count_windows_exec, find_workspace_node, leaf_windows, workspace_num_for_con_id, SwayNode};
use mde::workers::auto_mark::mark_command;
use mde::workers::tag_layout::layout_command_on_new_window;
use mde::workers::tags::{Tag, TagMember, TagStore};

fn node(id: u64, kind: &str, name: &str, nodes: Vec<SwayNode>) -> SwayNode {
    SwayNode {
        id,
        kind: kind.to_string(),
        name: name.to_string(),
        app_id: String::new(),
        focused: false,
        urgent: false,
        num: None,
        layout: "splith".to_string(),
        nodes,
        floating_nodes: Vec::new(),
    }
}

fn win(id: u64, name: &str, app_id: &str) -> SwayNode {
    let mut n = node(id, "con", name, Vec::new());
    n.app_id = app_id.to_string();
    n
}

fn ws(id: u64, num: i32, nodes: Vec<SwayNode>) -> SwayNode {
    let mut n = node(id, "workspace", &num.to_string(), nodes);
    n.num = Some(num);
    n
}

fn sample_tree() -> SwayNode {
    let mut ws1 = ws(10, 1, vec![win(11, "Mozilla Firefox", "firefox"), node(12, "con", "", vec![win(13, "foot", "foot")])]);
    let mut floater = win(14, "pavucontrol", "pavucontrol");
    floater.kind = "floating_con".to_string();
    ws1.floating_nodes.push(floater);
    let mut ws2 = ws(20, 2, vec![win(21, "mail", "thunderbird")]);
    ws2.nodes[0].focused = true;
    ws2.nodes[0].urgent = true;
    let output = node(2, "output", "HDMI-A-1", vec![ws1, ws2]);
    node(1, "root", "root", vec![output])
}

#[test]
fn leaf_windows_are_listed_in_tree_order() {
    let tree = sample_tree();
    let leaves = leaf_windows(&tree);
    let ids: Vec<u64> = leaves.iter().map(|l| l.id).collect();
    // The unnamed container and the floating_con are not listed.
    assert_eq!(ids, vec![11, 13, 21]);
    assert_eq!(leaves[0].name, "Mozilla Firefox");
    assert!(leaves[2].focused && leaves[2].urgent);
}

#[test]
fn switcher_and_dock_rows_follow_the_leaves() {
    let tree = sample_tree();
    let rows = app_switcher::collect_windows(&tree);
    assert_eq!(rows.len(), 3);
    assert_eq!(rows[1].app_id, "foot");
    assert_eq!(rows[1].name, "foot");
    let cells = dock::collect_windows(&tree);
    assert_eq!(cells.len(), 3);
    assert_eq!(cells[2].app_id, "thunderbird");
    assert!(cells[2].urgent);
}

#[test]
fn workspace_lookup_and_window_count() {
    let tree = sample_tree();
    assert_eq!(workspace_num_for_con_id(&tree, 13), Some(1));
    assert_eq!(workspace_num_for_con_id(&tree, 14), Some(1));
    assert_eq!(workspace_num_for_con_id(&tree, 21), Some(2));
    assert_eq!(workspace_num_for_con_id(&tree, 99), None);
    let w1 = find_workspace_node(&tree, 1).unwrap();
    assert_eq!(w1.id, 10);
    assert_eq!(count_windows_exec(w1), 2);
    assert_eq!(count_windows_exec(find_workspace_node(&tree, 2).unwrap()), 1);
    assert!(find_workspace_node(&tree, 3).is_none());
}

#[test]
fn new_window_gets_the_tag_layout_on_a_fresh_workspace() {
    let tree = sample_tree();
    let mut store = TagStore::default();
    store.tags.push(Tag {
        name: "Mail".to_string(),
        members: vec![TagMember::Workspace { num: 2 }],
        group_color: None,
        preferred_output: None,
        default_layout: Some("tabbed".to_string()),
    });
    assert_eq!(layout_command_on_new_window(&store, &tree, 21).as_deref(), Some("layout tabbed"));
    // Workspace 1 has no owning tag.
    assert!(layout_command_on_new_window(&store, &tree, 11).is_none());
    // Unknown container.
    assert!(layout_command_on_new_window(&store, &tree, 500).is_none());
}

#[test]
fn mark_command_shape() {
    assert_eq!(mark_command(42, "web"), "[con_id=42] mark --add web");
    assert_eq!(mark_command(-3, "chat"), "[con_id=-3] mark --add chat");
}
