use screen::client::{Sprite, Viewport};
use screen::compositor::State;
use screen::protocol::Message;

#[test]
fn viewport_config_defaults() {
    let c = Viewport::config(None, None, None, None, None, None);
    assert_eq!(c.title, "screen exe");
    assert_eq!(c.size, (640, 480));
    assert!(!c.visible);
    assert!(!c.decorations);
    assert_eq!(c.pos, None);
    assert_eq!(c.z, None);
    let c = Viewport::config(Some((1, 2)), Some(3), Some("t".to_string()), Some(true), Some((5, 6)), Some(true));
    assert_eq!(c.title, "t");
    assert_eq!((c.pos, c.z, c.visible, c.size, c.decorations), (Some((1, 2)), Some(3), true, (5, 6), true));
}

#[test]
fn viewport_gives_one_command_per_call() {
    let (v, m) = Viewport::new(Viewport::config(None, None, None, None, None, None), 7);
    assert_eq!(v.id, 7);
    assert!(matches!(m, Message::CreateWindow(_, 7)));
    assert!(matches!(v.reposition(3, 4), Message::RepositionWindow(3, 4, 7)));
    assert!(matches!(v.resize(30, 40), Message::ResizeWindow(30, 40, 7)));
    assert!(matches!(v.close(), Message::DeleteWindow(7)));
}

#[test]
fn sprite_handle_tracks_position() {
    let (v, _) = Viewport::new(Viewport::config(None, None, None, None, None, None), 7);
    let (mut s, m) = Sprite::new(&v, 3);
    assert!(matches!(m, Message::CreateSprite(3, 7)));
    assert_eq!((s.get_x(), s.get_y(), s.get_z()), (0, 0, 0));
    assert!(matches!(s.reposition(1, 2, 3), Message::RepositionSprite(3, 7, 1, 2, 3)));
    assert!(matches!(s.set_x(10), Message::RepositionSprite(3, 7, 10, 2, 3)));
    assert!(matches!(s.set_y(20), Message::RepositionSprite(3, 7, 10, 20, 3)));
    assert!(matches!(s.set_z(30), Message::RepositionSprite(3, 7, 10, 20, 30)));
    assert_eq!((s.get_x(), s.get_y(), s.get_z()), (10, 20, 30));
    assert!(matches!(s.set("a.png".to_string()), Message::SetSprite(3, 7, ref f) if f == "a.png"));
    assert!(matches!(s.close(), Message::RemoveSprite(3, 7)));
}

#[test]
fn handle_commands_drive_the_compositor() {
    let mut st = State::new();
    let (v, m) = Viewport::new(Viewport::config(None, None, None, None, Some((8, 8)), None), 7);
    st.apply(m, None).unwrap();
    let (mut s, m) = Sprite::new(&v, 3);
    st.apply(m, None).unwrap();
    st.apply(s.reposition(4, 5, 6), None).unwrap();
    let c = st.sprite(3, 7).unwrap();
    assert_eq!((c.x, c.y, c.z), (s.get_x(), s.get_y(), s.get_z()));
    st.apply(s.close(), None).unwrap();
    assert!(st.sprite(3, 7).is_none());
    st.apply(v.close(), None).unwrap();
    assert!(!st.has_window(7));
}

#[test]
fn random_ids_name_the_new_items() {
    let (v, m) = Viewport::with_random_id(Viewport::config(None, None, None, None, None, None));
    assert!(matches!(m, Message::CreateWindow(_, id) if id == v.id));
    let (s, m) = Sprite::with_random_id(&v);
    assert_eq!(s.viewport_id, v.id);
    assert!(matches!(m, Message::CreateSprite(sp, w) if sp == s.id && w == v.id));
}

#[test]
fn socket_name_follows_the_system_convention() {
    assert_eq!(screen::client::socket_name("abcdef", true), "/tmp/libfm-screen-sock-abcdef.sock");
    assert_eq!(screen::client::socket_name("abcdef", false), "@libfm-screen-sock-abcdef.sock");
    assert_eq!(screen::client::socket_name("", false), "@libfm-screen-sock-.sock");
}
