use kernel_console::console::Console;
use kernel_console::vga_buffer::BUFFER_HEIGHT;

#[test]
fn first_acquisition_constructs_a_fresh_writer() {
    let mut console = Console::new();
    let w = console.acquire();
    assert_eq!(w.current_column(), 0);
    console.release(w);
}

#[test]
fn state_persists_across_acquisitions() {
    // Singleton identity: a later scoped acquisition observes the
    // cumulative state all earlier ones left behind.
    let mut console = Console::new();
    let mut w = console.acquire();
    w.write_string(b"abc");
    console.release(w);

    let w2 = console.acquire();
    assert_eq!(w2.current_column(), 3);
    assert_eq!(w2.read_cell(BUFFER_HEIGHT - 1, 0), 14 * 256 + b'a' as u16);
    console.release(w2);

    let mut w3 = console.acquire();
    assert_eq!(w3.current_column(), 3);
    w3.write_byte(b'\n');
    console.release(w3);

    let w4 = console.acquire();
    assert_eq!(w4.current_column(), 0);
    console.release(w4);
}
