use wgpu_ui::dom::{Dom, DomError, NodeData, NodeId};
use wgpu_ui::widgets::{Position, Size, Triangle, Vertex, WidgetData, WidgetDesc};

fn vertices() -> [Vertex; 3] {
    [
        Vertex { position: [0, 400, 0], color: [255, 0, 0] },
        Vertex { position: [-400, -400, 0], color: [0, 255, 0] },
        Vertex { position: [400, -400, 0], color: [0, 0, 255] },
    ]
}

fn payload(x: i32) -> NodeData<Triangle> {
    NodeData {
        widget: WidgetDesc {
            widget: Triangle::new(vertices()),
            data: WidgetData {
                args: Vec::new(),
                position: Position { x, y: 0, z: 0 },
                global_pos: Position { x: 0, y: 0, z: 0 },
                size: Size { width: 800, height: 600 },
            },
        },
    }
}

#[test]
fn root_insert_round_trips_through_lookup() {
    let mut dom: Dom<Triangle> = Dom::new();
    let a = dom.add_node("a", "/", payload(1)).unwrap();
    let b = dom.add_node("button", "/", payload(2)).unwrap();
    assert_eq!(dom.get("/a"), Some(a));
    assert_eq!(dom.get("/button"), Some(b));
    assert_ne!(a, b);
}

#[test]
fn identifiers_are_unique_and_increasing() {
    let mut dom: Dom<Triangle> = Dom::new();
    let mut ids: Vec<NodeId> = Vec::new();
    ids.push(dom.add_node("a", "/", payload(0)).unwrap());
    ids.push(dom.add_node("a2", "/", payload(1)).unwrap());
    ids.push(dom.add_node("b", "/a", payload(2)).unwrap());
    ids.push(dom.add_node("c", "/nowhere", payload(3)).unwrap());
    ids.push(dom.add_node("d", "/a/b", payload(4)).unwrap());
    for i in 0..ids.len() {
        assert_eq!(ids[i], NodeId(i as u32));
        for j in 0..ids.len() {
            if i != j {
                assert_ne!(ids[i], ids[j]);
            }
        }
    }
}

#[test]
fn lookup_misses_on_empty_store_and_malformed_paths() {
    let dom: Dom<Triangle> = Dom::new();
    assert_eq!(dom.get("/missing"), None);
    assert_eq!(dom.get(""), None);
    assert_eq!(dom.get("no-leading-slash"), None);
}

#[test]
fn lookup_needs_leading_slash_on_filled_store() {
    let mut dom: Dom<Triangle> = Dom::new();
    dom.add_node("a", "/", payload(0)).unwrap();
    assert_eq!(dom.get("a"), None);
    assert_eq!(dom.get("/b"), None);
    assert_eq!(dom.get("/a/"), None);
}

#[test]
fn deep_insert_attaches_child_to_resolved_parent() {
    let mut dom: Dom<Triangle> = Dom::new();
    let a = dom.add_node("a", "/", payload(0)).unwrap();
    let b = dom.add_node("b", "/a", payload(1)).unwrap();
    let c = dom.add_node("c", "/a/b", payload(2)).unwrap();
    assert_eq!(dom.get("/a/b"), Some(b));
    assert_eq!(dom.get("/a/b/c"), Some(c));
    assert_eq!(dom.get("/b"), None);
    assert_eq!(dom.get("/a/c"), None);
    let nb = dom.get_node_from_id(&b).unwrap();
    assert_eq!(nb.parent(), Some(a));
    assert_eq!(nb.child("c"), Some(c));
    assert_eq!(nb.data().widget.data.position.x, 1);
    let na = dom.get_node_from_id(&a).unwrap();
    assert_eq!(na.parent(), None);
    assert_eq!(na.child("b"), Some(b));
}

#[test]
fn unresolved_path_falls_back_to_root() {
    let mut dom: Dom<Triangle> = Dom::new();
    let x = dom.add_node("x", "/not/there", payload(0)).unwrap();
    assert_eq!(dom.get("/x"), Some(x));
    assert_eq!(dom.get_node_from_id(&x).unwrap().parent(), None);
}

#[test]
fn duplicate_root_name_is_rejected() {
    let mut dom: Dom<Triangle> = Dom::new();
    let first = dom.add_node("a", "/", payload(0)).unwrap();
    assert_eq!(dom.add_node("a", "/", payload(1)).err(), Some(DomError::DuplicateName));
    assert_eq!(dom.get("/a"), Some(first));
    assert_eq!(dom.get_node_from_id(&first).unwrap().data().widget.data.position.x, 0);
    assert!(dom.get_node_from_id(&NodeId(first.0 + 1)).is_none());
    let next = dom.add_node("b", "/", payload(2)).unwrap();
    assert_eq!(next, NodeId(first.0 + 1));
}

#[test]
fn duplicate_child_name_is_rejected() {
    let mut dom: Dom<Triangle> = Dom::new();
    let a = dom.add_node("a", "/", payload(0)).unwrap();
    let b = dom.add_node("b", "/a", payload(1)).unwrap();
    assert_eq!(dom.add_node("b", "/a", payload(2)).err(), Some(DomError::DuplicateName));
    assert_eq!(dom.get("/a/b"), Some(b));
    let c = dom.add_node("b", "/", payload(3)).unwrap();
    assert_eq!(dom.get("/b"), Some(c));
    assert_eq!(dom.get_node_from_id(&a).unwrap().child("b"), Some(b));
}

#[test]
fn fallback_to_root_rejects_bound_root_name() {
    let mut dom: Dom<Triangle> = Dom::new();
    let x = dom.add_node("x", "/", payload(0)).unwrap();
    assert_eq!(dom.add_node("x", "/missing", payload(1)).err(), Some(DomError::DuplicateName));
    assert_eq!(dom.get("/x"), Some(x));
}

#[test]
fn node_from_unknown_id_is_absent() {
    let mut dom: Dom<Triangle> = Dom::new();
    let a = dom.add_node("a", "/", payload(0)).unwrap();
    assert!(dom.get_node_from_id(&a).is_some());
    assert!(dom.get_node_from_id(&NodeId(a.0 + 1)).is_none());
}

#[test]
fn lookup_of_slash_alone_names_the_empty_root_name() {
    let mut dom: Dom<Triangle> = Dom::new();
    assert_eq!(dom.get("/"), None);
    let e = dom.add_node("", "/", payload(0)).unwrap();
    assert_eq!(dom.get("/"), Some(e));
}
