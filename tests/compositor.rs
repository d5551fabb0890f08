use screen::compositor::State;
use screen::protocol::{CommandError, Config, Message, ReturnMessage};
use screen::raster::{Image, BACKGROUND};

const RED: [u8; 4] = [255, 0, 0, 255];
const BLUE: [u8; 4] = [0, 0, 255, 255];

fn packed(p: [u8; 4]) -> u32 {
    u32::from_be_bytes(p)
}

fn png(width: u32, height: u32, pixel: impl Fn(u32, u32) -> [u8; 4]) -> Vec<u8> {
    let img = image::RgbaImage::from_fn(width, height, |x, y| image::Rgba(pixel(x, y)));
    let mut out = std::io::Cursor::new(Vec::new());
    img.write_to(&mut out, image::ImageOutputFormat::Png).unwrap();
    out.into_inner()
}

fn config(width: u32, height: u32) -> Config {
    Config {
        title: "test".to_string(),
        pos: None,
        visible: true,
        decorations: false,
        size: (width, height),
        z: None,
    }
}

fn with_window(id: usize, width: u32, height: u32) -> State {
    let mut st = State::new();
    st.apply(Message::CreateWindow(config(width, height), id), None).unwrap();
    st
}

fn add_sprite(st: &mut State, sp: usize, id: usize, file: Vec<u8>, x: i32, y: i32, z: i32) {
    st.apply(Message::CreateSprite(sp, id), None).unwrap();
    st.apply(Message::SetSprite(sp, id, "img.png".to_string()), Some(file)).unwrap();
    st.apply(Message::RepositionSprite(sp, id, x, y, z), None).unwrap();
}

fn frame(st: &State, id: usize) -> Vec<Vec<u32>> {
    st.window(id).unwrap().frame.clone()
}

#[test]
fn round_trip_offsets_image_and_delete_frees_sprites() {
    let colours = [[1, 2, 3, 255], [4, 5, 6, 255], [7, 8, 9, 255], [10, 11, 12, 255]];
    let file = png(2, 2, |x, y| colours[(y * 2 + x) as usize]);
    let mut st = with_window(7, 64, 48);
    st.apply(Message::CreateSprite(3, 7), None).unwrap();
    st.apply(Message::SetSprite(3, 7, "img.png".to_string()), Some(file)).unwrap();
    st.apply(Message::RepositionSprite(3, 7, 10, 20, 5), None).unwrap();
    assert_eq!(st.redraw(), vec![7]);
    let f = frame(&st, 7);
    assert_eq!(f.len(), 48);
    assert_eq!(f[0].len(), 64);
    assert_eq!(f[20][10], packed(colours[0]));
    assert_eq!(f[20][11], packed(colours[1]));
    assert_eq!(f[21][10], packed(colours[2]));
    assert_eq!(f[21][11], packed(colours[3]));
    assert_eq!(f[19][10], BACKGROUND);
    assert_eq!(f[20][12], BACKGROUND);
    assert_eq!(f[0][0], BACKGROUND);
    st.apply(Message::DeleteWindow(7), None).unwrap();
    assert!(!st.has_window(7));
    assert!(st.sprite(3, 7).is_none());
    assert!(st.window_ids().is_empty());
}

#[test]
fn delete_window_twice_is_a_no_op() {
    let mut st = with_window(7, 8, 8);
    st.apply(Message::CreateWindow(config(8, 8), 8), None).unwrap();
    assert_eq!(st.apply(Message::DeleteWindow(7), None), Ok(()));
    assert_eq!(st.apply(Message::DeleteWindow(7), None), Ok(()));
    assert!(!st.has_window(7));
    assert_eq!(st.window_ids(), vec![8]);
}

#[test]
fn burst_of_moves_redraws_once_at_final_position() {
    let mut st = with_window(7, 16, 16);
    add_sprite(&mut st, 3, 7, png(1, 1, |_, _| RED), 0, 0, 0);
    st.redraw();
    for i in 1..=5 {
        st.apply(Message::RepositionSprite(3, 7, i, i, 0), None).unwrap();
    }
    assert!(st.window(7).unwrap().dirty);
    assert_eq!(st.redraw(), vec![7]);
    assert_eq!(st.redraw(), Vec::<usize>::new());
    let s = st.sprite(3, 7).unwrap();
    assert_eq!((s.x, s.y, s.z), (5, 5, 0));
    let f = frame(&st, 7);
    assert_eq!(f[5][5], packed(RED));
    for i in 0..5 {
        assert_eq!(f[i][i], BACKGROUND);
    }
}

#[test]
fn sprite_partly_outside_is_clipped() {
    let mut st = with_window(1, 4, 4);
    add_sprite(&mut st, 1, 1, png(3, 3, |_, _| RED), 2, 2, 0);
    add_sprite(&mut st, 2, 1, png(2, 2, |_, _| BLUE), -1, -1, 1);
    st.redraw();
    let f = frame(&st, 1);
    assert_eq!(f.len(), 4);
    assert!(f.iter().all(|row| row.len() == 4));
    assert_eq!(f[0][0], packed(BLUE));
    assert_eq!(f[0][1], BACKGROUND);
    assert_eq!(f[1][1], BACKGROUND);
    assert_eq!(f[2][2], packed(RED));
    assert_eq!(f[3][3], packed(RED));
    assert_eq!(f[3][1], BACKGROUND);
}

#[test]
fn sprite_wholly_outside_draws_nothing() {
    let mut st = with_window(1, 4, 4);
    add_sprite(&mut st, 1, 1, png(2, 2, |_, _| RED), 10, -20, 0);
    st.redraw();
    assert!(frame(&st, 1).iter().flatten().all(|&p| p == BACKGROUND));
}

#[test]
fn close_request_queues_one_notification_and_keeps_window() {
    let mut st = with_window(7, 4, 4);
    assert_eq!(st.close_requested(7), Ok(()));
    assert_eq!(st.take_notifications(), vec![ReturnMessage::CloseRequested(7)]);
    assert!(st.has_window(7));
    assert!(st.take_notifications().is_empty());
    assert_eq!(st.close_requested(8), Err(CommandError::UnknownWindow(8)));
    assert!(st.take_notifications().is_empty());
}

#[test]
fn unknown_sprite_is_rejected_without_changes() {
    let mut st = with_window(7, 4, 4);
    st.apply(Message::CreateWindow(config(4, 4), 8), None).unwrap();
    add_sprite(&mut st, 1, 8, png(1, 1, |_, _| RED), 1, 2, 3);
    st.redraw();
    assert_eq!(
        st.apply(Message::RepositionSprite(99, 7, 0, 0, 0), None),
        Err(CommandError::UnknownSprite(99, 7))
    );
    let s = st.sprite(1, 8).unwrap();
    assert_eq!((s.x, s.y, s.z), (1, 2, 3));
    assert!(!st.window(7).unwrap().dirty);
    assert!(!st.window(8).unwrap().dirty);
    assert!(st.sprite(99, 7).is_none());
}

#[test]
fn deeper_sprite_is_drawn_on_top() {
    let mut st = with_window(1, 4, 4);
    add_sprite(&mut st, 1, 1, png(2, 2, |_, _| RED), 0, 0, 5);
    add_sprite(&mut st, 2, 1, png(2, 2, |_, _| BLUE), 1, 1, 2);
    st.redraw();
    let f = frame(&st, 1);
    assert_eq!(f[1][1], packed(RED));
    assert_eq!(f[2][2], packed(BLUE));
    st.apply(Message::RepositionSprite(2, 1, 1, 1, 9), None).unwrap();
    st.redraw();
    assert_eq!(frame(&st, 1)[1][1], packed(BLUE));
}

#[test]
fn equal_depth_keeps_creation_order() {
    let mut st = with_window(1, 2, 2);
    add_sprite(&mut st, 1, 1, png(1, 1, |_, _| RED), 0, 0, 0);
    add_sprite(&mut st, 2, 1, png(1, 1, |_, _| BLUE), 0, 0, 0);
    st.redraw();
    assert_eq!(frame(&st, 1)[0][0], packed(BLUE));
}

#[test]
fn commands_on_unknown_window_fail() {
    let mut st = State::new();
    assert_eq!(st.apply(Message::ResizeWindow(4, 4, 5), None), Err(CommandError::UnknownWindow(5)));
    assert_eq!(st.apply(Message::RepositionWindow(4, 4, 5), None), Err(CommandError::UnknownWindow(5)));
    assert_eq!(st.apply(Message::CreateSprite(1, 5), None), Err(CommandError::UnknownWindow(5)));
    assert_eq!(st.apply(Message::RemoveSprite(1, 5), None), Err(CommandError::UnknownWindow(5)));
    assert_eq!(
        st.apply(Message::SetSprite(1, 5, "a.png".to_string()), None),
        Err(CommandError::UnknownWindow(5))
    );
    assert_eq!(
        st.apply(Message::RepositionSprite(1, 5, 0, 0, 0), None),
        Err(CommandError::UnknownWindow(5))
    );
    assert!(st.window_ids().is_empty());
}

#[test]
fn duplicate_and_oversized_windows_are_refused() {
    let mut st = with_window(7, 4, 4);
    assert_eq!(
        st.apply(Message::CreateWindow(config(2, 2), 7), None),
        Err(CommandError::DuplicateWindow(7))
    );
    assert_eq!(st.window(7).unwrap().width, 4);
    assert_eq!(
        st.apply(Message::CreateWindow(config(8193, 2), 9), None),
        Err(CommandError::SurfaceTooLarge(9))
    );
    assert!(!st.has_window(9));
    assert_eq!(
        st.apply(Message::ResizeWindow(2, 8193, 7), None),
        Err(CommandError::SurfaceTooLarge(7))
    );
    assert_eq!(st.apply(Message::ResizeWindow(8192, 8192, 7), None), Ok(()));
}

#[test]
fn remove_unknown_sprite_fails_and_remove_marks_dirty() {
    let mut st = with_window(7, 4, 4);
    st.apply(Message::CreateSprite(1, 7), None).unwrap();
    st.redraw();
    assert_eq!(st.apply(Message::RemoveSprite(2, 7), None), Err(CommandError::UnknownSprite(2, 7)));
    assert!(!st.window(7).unwrap().dirty);
    assert_eq!(st.apply(Message::RemoveSprite(1, 7), None), Ok(()));
    assert!(st.window(7).unwrap().dirty);
    assert!(st.sprite(1, 7).is_none());
}

#[test]
fn same_sprite_id_in_two_windows_is_two_sprites() {
    let mut st = with_window(1, 4, 4);
    st.apply(Message::CreateWindow(config(4, 4), 2), None).unwrap();
    st.apply(Message::CreateSprite(3, 1), None).unwrap();
    st.apply(Message::CreateSprite(3, 2), None).unwrap();
    st.apply(Message::RepositionSprite(3, 1, 1, 1, 1), None).unwrap();
    let s = st.sprite(3, 2).unwrap();
    assert_eq!((s.x, s.y, s.z), (0, 0, 0));
    let s = st.sprite(3, 1).unwrap();
    assert_eq!((s.x, s.y, s.z), (1, 1, 1));
}

#[test]
fn unreadable_or_undecodable_image_leaves_sprite_imageless() {
    let mut st = with_window(1, 4, 4);
    add_sprite(&mut st, 1, 1, png(1, 1, |_, _| RED), 0, 0, 0);
    assert!(st.sprite(1, 1).unwrap().image.is_some());
    st.redraw();
    st.apply(Message::SetSprite(1, 1, "missing.png".to_string()), None).unwrap();
    assert!(st.sprite(1, 1).unwrap().image.is_none());
    assert!(st.window(1).unwrap().dirty);
    st.apply(Message::SetSprite(1, 1, "bad.png".to_string()), Some(vec![1, 2, 3])).unwrap();
    assert!(st.sprite(1, 1).unwrap().image.is_none());
    st.redraw();
    assert_eq!(frame(&st, 1)[0][0], BACKGROUND);
}

#[test]
fn new_window_is_stale_until_first_redraw() {
    let mut st = with_window(4, 2, 3);
    let w = st.window(4).unwrap();
    assert!(w.dirty);
    assert!(w.frame.is_empty());
    assert_eq!(st.redraw(), vec![4]);
    assert_eq!(frame(&st, 4), vec![vec![BACKGROUND; 2]; 3]);
    assert!(!st.window(4).unwrap().dirty);
}

#[test]
fn resize_marks_dirty_and_reposition_does_not() {
    let mut st = with_window(4, 2, 2);
    st.redraw();
    st.apply(Message::RepositionWindow(30, 40, 4), None).unwrap();
    assert!(!st.window(4).unwrap().dirty);
    assert_eq!(st.window(4).unwrap().position, Some((30, 40)));
    st.apply(Message::ResizeWindow(5, 1, 4), None).unwrap();
    assert!(st.window(4).unwrap().dirty);
    st.redraw();
    assert_eq!(frame(&st, 4), vec![vec![BACKGROUND; 5]; 1]);
}

#[test]
fn redraw_only_touches_stale_windows() {
    let mut st = with_window(1, 2, 2);
    st.apply(Message::CreateWindow(config(2, 2), 2), None).unwrap();
    st.apply(Message::CreateWindow(config(2, 2), 3), None).unwrap();
    assert_eq!(st.redraw(), vec![1, 2, 3]);
    st.apply(Message::CreateSprite(1, 3), None).unwrap();
    st.apply(Message::CreateSprite(1, 1), None).unwrap();
    assert_eq!(st.redraw(), vec![1, 3]);
}

#[test]
fn image_from_rgba_packs_pixels_row_by_row() {
    let img = Image::from_rgba(2, 2, &vec![1, 2, 3, 4, 5, 6, 7, 8, 9, 10, 11, 12, 13, 14, 15, 16]).unwrap();
    assert_eq!(img.rows, vec![vec![0x01020304, 0x05060708], vec![0x090a0b0c, 0x0d0e0f10]]);
    assert!(Image::from_rgba(2, 2, &vec![0; 15]).is_none());
    let empty = Image::from_rgba(0, 3, &vec![]).unwrap();
    assert_eq!(empty.rows, vec![Vec::<u32>::new(); 3]);
}

#[test]
fn image_decode_reads_png_pixels() {
    let img = Image::decode(&png(2, 1, |x, _| if x == 0 { RED } else { BLUE })).unwrap();
    assert_eq!((img.width, img.height), (2, 1));
    assert_eq!(img.rows, vec![vec![packed(RED), packed(BLUE)]]);
    assert!(Image::decode(&[0, 1, 2, 3]).is_none());
}
