use handmade_core::display::{DisplayBuffer, Pixel};

fn zero_pixels(n: usize) -> Vec<Pixel> {
    vec![Pixel { b: 0, g: 0, r: 0, a: 0 }; n]
}

/// The green value the pattern promises: `(x ^ y - offset) mod 256` with
/// `x = i mod width` and `y = i div height`.
fn expected_green(i: usize, width: usize, height: usize, offset: i32) -> u8 {
    let x = (i % width) as u32;
    let y = (i / height) as u32;
    (((x ^ y) as i32).wrapping_sub(offset)) as u8
}

#[test]
fn step_render_reproduces_pattern() {
    let width: usize = 4;
    let height: usize = 3;
    let mut frame = DisplayBuffer {
        memory: zero_pixels(width * height),
        current_offset: 7,
        width: width as i32,
        height: height as i32,
    };
    // the other channels must survive the step untouched
    for (i, px) in frame.memory.iter_mut().enumerate() {
        px.b = 10 + i as u8;
        px.r = 20 + i as u8;
        px.a = 30 + i as u8;
    }
    frame.step_render(1);
    for i in 0..width * height {
        let px = frame.memory[i];
        assert_eq!(px.g, expected_green(i, width, height, 7), "green at {}", i);
        assert_eq!(px.b, 10 + i as u8);
        assert_eq!(px.r, 20 + i as u8);
        assert_eq!(px.a, 30 + i as u8);
    }
    assert_eq!(frame.current_offset, 8);
}

#[test]
fn step_render_concrete_values() {
    // width 4, height 3, offset 0: x = i % 4, y = i / 3
    let mut frame = DisplayBuffer {
        memory: zero_pixels(12),
        current_offset: 0,
        width: 4,
        height: 3,
    };
    frame.step_render(1);
    // i = 1: x = 1, y = 0, 1 ^ 0 = 1
    assert_eq!(frame.memory[1].g, 1);
    // i = 5: x = 1, y = 1, 1 ^ 1 = 0
    assert_eq!(frame.memory[5].g, 0);
    // i = 11: x = 3, y = 3, 3 ^ 3 = 0
    assert_eq!(frame.memory[11].g, 0);
    // i = 7: x = 3, y = 2, 3 ^ 2 = 1
    assert_eq!(frame.memory[7].g, 1);
}

#[test]
fn step_render_negative_offset_wraps_green() {
    let mut frame = DisplayBuffer {
        memory: zero_pixels(12),
        current_offset: -3,
        width: 4,
        height: 3,
    };
    frame.step_render(1);
    // i = 0: x = 0, y = 0, (0 - (-3)) mod 256 = 3
    assert_eq!(frame.memory[0].g, 3);
    // i = 1: x = 1, y = 0, (1 + 3) mod 256 = 4
    assert_eq!(frame.memory[1].g, 4);
    assert_eq!(frame.current_offset, -2);
}

#[test]
fn step_render_offset_overflow_wraps() {
    let mut frame = DisplayBuffer {
        memory: zero_pixels(1),
        current_offset: i32::MAX,
        width: 1,
        height: 1,
    };
    frame.step_render(1);
    assert_eq!(frame.current_offset, i32::MIN);
}

#[test]
fn resize_preserves_scroll_offset() {
    // the resize scenario: 1280x720 at offset 40, resized to 800x600
    let mut frame = DisplayBuffer {
        memory: zero_pixels(1280 * 720),
        current_offset: 40,
        width: 1280,
        height: 720,
    };
    frame.resize(800, 600);
    assert_eq!(frame.memory.len(), 480000);
    assert_eq!(frame.width, 800);
    assert_eq!(frame.height, 600);
    assert_eq!(frame.current_offset, 40);
    // a subsequent step must use the new dimensions
    frame.step_render(1);
    for &i in &[0usize, 1, 799, 800, 5000, 479999] {
        assert_eq!(frame.memory[i].g, expected_green(i, 800, 600, 40), "green at {}", i);
    }
    assert_eq!(frame.current_offset, 41);
}

#[test]
fn resize_keeps_old_pixels_and_zeroes_new_slots() {
    let mut frame = DisplayBuffer {
        memory: zero_pixels(4),
        current_offset: 5,
        width: 2,
        height: 2,
    };
    for px in frame.memory.iter_mut() {
        px.b = 9;
    }
    frame.resize(3, 2);
    assert_eq!(frame.memory.len(), 6);
    for i in 0..4 {
        assert_eq!(frame.memory[i].b, 9);
    }
    for i in 4..6 {
        assert_eq!(frame.memory[i], Pixel { b: 0, g: 0, r: 0, a: 0 });
    }
    assert_eq!(frame.current_offset, 5);
}

#[test]
fn resize_to_same_size_keeps_memory() {
    let mut frame = DisplayBuffer {
        memory: zero_pixels(6),
        current_offset: -1,
        width: 3,
        height: 2,
    };
    frame.memory[5].r = 77;
    frame.resize(2, 3);
    assert_eq!(frame.memory.len(), 6);
    assert_eq!(frame.memory[5].r, 77);
    assert_eq!(frame.width, 2);
    assert_eq!(frame.height, 3);
}
