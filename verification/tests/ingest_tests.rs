use ledstrip::effect::StripInfo;
use ledstrip::ingest::apply_datagram;
use ledstrip::net::StripMode;
use ledstrip::rgba::Rgba8;
use ledstrip::strip::{State, StripState};

fn strip(leds: usize, mode: StripMode) -> StripState {
    let mut s = StripState::new(StripInfo { leds, rev: false });
    s.mode = mode;
    s
}

fn rgba(c: Rgba8) -> (u8, u8, u8, u8) {
    (c.r, c.g, c.b, c.a)
}

#[test]
fn single_color_fills_the_configured_prefix() {
    let mut state = State::new(vec![strip(4, StripMode::Dynamic)]);
    let data: Vec<u8> = vec![1, 0, 10, 20, 30];
    let n = data.len();
    apply_datagram(&mut state, &data, n);
    let mut i: usize = 0;
    while i < 4 {
        assert_eq!(rgba(state.strips[0].colors[i]), (10, 20, 30, 255));
        i += 1;
    }
    // beyond the configured length the buffer is untouched
    assert_eq!(rgba(state.strips[0].colors[4]), (0, 0, 0, 0));
}

#[test]
fn off_strip_refuses_writes_and_aborts_the_datagram() {
    let mut state = State::new(vec![strip(4, StripMode::Off), strip(4, StripMode::Dynamic)]);
    // first record targets the off strip; the second, though valid, is dropped
    let data: Vec<u8> = vec![1, 0, 10, 20, 30, 1, 1, 40, 50, 60];
    let n = data.len();
    apply_datagram(&mut state, &data, n);
    assert_eq!(rgba(state.strips[0].colors[0]), (0, 0, 0, 0));
    assert_eq!(rgba(state.strips[1].colors[0]), (0, 0, 0, 0));
}

#[test]
fn effects_strip_refuses_writes() {
    let mut state = State::new(vec![strip(4, StripMode::Effects)]);
    let data: Vec<u8> = vec![1, 0, 10, 20, 30];
    let n = data.len();
    apply_datagram(&mut state, &data, n);
    assert_eq!(rgba(state.strips[0].colors[0]), (0, 0, 0, 0));
}

#[test]
fn truncated_payload_leaves_the_buffer_unmodified() {
    let mut state = State::new(vec![strip(4, StripMode::Dynamic)]);
    let data: Vec<u8> = vec![1, 0, 10, 20];
    let n = data.len();
    apply_datagram(&mut state, &data, n);
    let mut i: usize = 0;
    while i < 4 {
        assert_eq!(rgba(state.strips[0].colors[i]), (0, 0, 0, 0));
        i += 1;
    }
}

#[test]
fn truncated_record_aborts_the_rest_of_the_datagram() {
    let mut state = State::new(vec![strip(2, StripMode::Dynamic), strip(2, StripMode::Dynamic)]);
    // SetBufferToMany needs 6 payload bytes for 2 pixels but only 4 arrive
    // before the next record's header; the remainder is dropped whole
    let data: Vec<u8> = vec![0, 0, 1, 2, 3, 4];
    let n = data.len();
    apply_datagram(&mut state, &data, n);
    assert_eq!(rgba(state.strips[0].colors[0]), (0, 0, 0, 0));
    assert_eq!(rgba(state.strips[1].colors[0]), (0, 0, 0, 0));
}

#[test]
fn many_colors_land_pixel_by_pixel() {
    let mut state = State::new(vec![strip(2, StripMode::Dynamic)]);
    let data: Vec<u8> = vec![0, 0, 1, 2, 3, 4, 5, 6];
    let n = data.len();
    apply_datagram(&mut state, &data, n);
    assert_eq!(rgba(state.strips[0].colors[0]), (1, 2, 3, 255));
    assert_eq!(rgba(state.strips[0].colors[1]), (4, 5, 6, 255));
    assert_eq!(rgba(state.strips[0].colors[2]), (0, 0, 0, 0));
}

#[test]
fn alpha_colors_store_quads_verbatim() {
    let mut state = State::new(vec![strip(2, StripMode::Hybrid)]);
    let data: Vec<u8> = vec![3, 0, 1, 2, 3, 4, 5, 6, 7, 8];
    let n = data.len();
    apply_datagram(&mut state, &data, n);
    assert_eq!(rgba(state.strips[0].colors[0]), (1, 2, 3, 4));
    assert_eq!(rgba(state.strips[0].colors[1]), (5, 6, 7, 8));
}

#[test]
fn two_records_in_one_datagram_both_land() {
    let mut state = State::new(vec![strip(2, StripMode::Dynamic), strip(2, StripMode::Hybrid)]);
    let data: Vec<u8> = vec![1, 0, 1, 2, 3, 1, 1, 4, 5, 6];
    let n = data.len();
    apply_datagram(&mut state, &data, n);
    assert_eq!(rgba(state.strips[0].colors[0]), (1, 2, 3, 255));
    assert_eq!(rgba(state.strips[0].colors[1]), (1, 2, 3, 255));
    assert_eq!(rgba(state.strips[1].colors[0]), (4, 5, 6, 255));
    assert_eq!(rgba(state.strips[1].colors[1]), (4, 5, 6, 255));
}

#[test]
fn target_out_of_range_aborts() {
    let mut state = State::new(vec![strip(2, StripMode::Dynamic)]);
    let data: Vec<u8> = vec![1, 9, 10, 20, 30, 1, 0, 40, 50, 60];
    let n = data.len();
    apply_datagram(&mut state, &data, n);
    assert_eq!(rgba(state.strips[0].colors[0]), (0, 0, 0, 0));
}

#[test]
fn unknown_command_aborts() {
    let mut state = State::new(vec![strip(2, StripMode::Dynamic)]);
    let data: Vec<u8> = vec![9, 0, 1, 2, 3, 1, 0, 40, 50, 60];
    let n = data.len();
    apply_datagram(&mut state, &data, n);
    assert_eq!(rgba(state.strips[0].colors[0]), (0, 0, 0, 0));
}

#[test]
fn reserved_commands_abort() {
    let mut state = State::new(vec![strip(2, StripMode::Dynamic)]);
    let data: Vec<u8> = vec![2, 0, 1, 2, 3, 1, 0, 40, 50, 60];
    let n = data.len();
    apply_datagram(&mut state, &data, n);
    assert_eq!(rgba(state.strips[0].colors[0]), (0, 0, 0, 0));
    let data2: Vec<u8> = vec![4, 0, 1, 2, 3];
    let n2 = data2.len();
    apply_datagram(&mut state, &data2, n2);
    assert_eq!(rgba(state.strips[0].colors[0]), (0, 0, 0, 0));
}

#[test]
fn short_and_empty_datagrams_do_nothing() {
    let mut state = State::new(vec![strip(2, StripMode::Dynamic)]);
    let empty: Vec<u8> = vec![];
    apply_datagram(&mut state, &empty, 0);
    let one: Vec<u8> = vec![1];
    apply_datagram(&mut state, &one, 1);
    assert_eq!(rgba(state.strips[0].colors[0]), (0, 0, 0, 0));
}

#[test]
fn only_the_first_n_bytes_are_read() {
    let mut state = State::new(vec![strip(2, StripMode::Dynamic)]);
    // the buffer holds a full record but only one byte was received
    let data: Vec<u8> = vec![1, 0, 10, 20, 30];
    apply_datagram(&mut state, &data, 1);
    assert_eq!(rgba(state.strips[0].colors[0]), (0, 0, 0, 0));
}
