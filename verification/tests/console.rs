use x86::console::{average_rgb, printable_guest_char, render_vga_graphics, render_vga_text};
use x86::server::{answer, path_of_request, response, route_of_text, route_request, Route};

#[test]
fn guest_characters() {
    assert_eq!(printable_guest_char(b'A'), 'A');
    assert_eq!(printable_guest_char(0x7E), '~');
    assert_eq!(printable_guest_char(0x09), ' ');
    assert_eq!(printable_guest_char(0x7F), ' ');
    assert_eq!(printable_guest_char(0xDB), ' ');
}

#[test]
fn text_page_rendering() {
    // One row of two cells: 'H' white on blue, 'i' yellow on black.
    let bytes = [b'H', 0x1F, b'i', 0x0E];
    let out = render_vga_text(2, 1, &bytes).unwrap();
    let expected = "\x1b[2J\x1b[H\x1b[38;2;255;255;255m\x1b[48;2;0;0;170mH\x1b[38;2;255;255;85m\x1b[48;2;0;0;0mi\x1b[0m\r\n\x1b[0m";
    assert_eq!(String::from_utf8(out).unwrap(), expected);
    assert!(render_vga_text(2, 2, &bytes).is_none());
    // The blink bit does not reach the background colour.
    let out = render_vga_text(1, 1, &[b'x', 0xF0]).unwrap();
    assert!(String::from_utf8(out).unwrap().contains("\x1b[48;2;170;170;170mx"));
}

#[test]
fn averaging_pixels() {
    // 2x2 image: red, green / blue, white.
    let px = [255, 0, 0, 0, 255, 0, 0, 0, 255, 255, 255, 255];
    assert_eq!(average_rgb(&px, 2, 2, 0, 2, 0, 2), (127, 127, 127));
    assert_eq!(average_rgb(&px, 2, 2, 0, 1, 0, 1), (255, 0, 0));
    // An empty box grows to one pixel.
    assert_eq!(average_rgb(&px, 2, 2, 1, 1, 1, 1), (255, 255, 255));
    // Outside the framebuffer: black.
    assert_eq!(average_rgb(&px, 2, 2, 5, 9, 0, 2), (0, 0, 0));
    // Pixels past the end of the buffer are not counted.
    assert_eq!(average_rgb(&px[..9], 2, 2, 0, 2, 1, 2), (0, 0, 255));
}

#[test]
fn graphics_rendering() {
    let px = vec![10u8; 80 * 80 * 3];
    let out = String::from_utf8(render_vga_graphics(80, 80, &px).unwrap()).unwrap();
    assert!(out.starts_with("\x1b[2J\x1b[H\x1b[38;2;10;10;10m\x1b[48;2;10;10;10m\u{2580}"));
    assert_eq!(out.matches('\u{2580}').count(), 80 * 40);
    assert_eq!(out.matches("\r\n").count(), 40);
    assert!(render_vga_graphics(0, 5, &[]).is_none());
    assert!(render_vga_graphics(2, 2, &px[..11]).is_none());
}

#[test]
fn http_response_framing() {
    let r = response("200 OK", "text/plain; charset=utf-8", b"ok\n");
    assert_eq!(
        r,
        b"HTTP/1.1 200 OK\r\nContent-Type: text/plain; charset=utf-8\r\nContent-Length: 3\r\nConnection: close\r\n\r\nok\n".to_vec()
    );
}

#[test]
fn request_paths() {
    assert_eq!(path_of_request("GET /health HTTP/1.1\r\nHost: x\r\n\r\n"), "/health");
    assert_eq!(path_of_request("GET /a/b?x=1 HTTP/1.1\r\n"), "/a/b");
    assert_eq!(path_of_request("GET"), "/");
    assert_eq!(path_of_request(""), "/");
    assert_eq!(path_of_request("  GET   /z  "), "/z");
    assert_eq!(path_of_request("GET\n/next-line"), "/");
}

#[test]
fn request_routes() {
    assert!(matches!(route_request(b"GET /health HTTP/1.1\r\n\r\n", false), Route::Health));
    assert!(matches!(route_request(b"GET /?q HTTP/1.1\r\n\r\n", true), Route::Index));
    assert!(matches!(route_request(b"GET //img/disk.img HTTP/1.1\r\n", true), Route::File(p) if p == "img/disk.img"));
    assert!(matches!(route_request(b"GET /img HTTP/1.1\r\n", false), Route::NotFound));
    assert!(matches!(route_request(b"", false), Route::Index));
}

#[test]
fn image_lines() {
    let image = x86::image::Image::from_bytes(x86::image::ImageKind::VgaBios, "vgabios.bin".to_string(), b"abc".to_vec());
    assert_eq!(
        x86::console::image_line("vga-bios", Some(&image)),
        "vga-bios: vgabios.bin (3 bytes, VgaBios, sha256=ba7816bf8f01cfea414140de5dae2223b00361a396177a9cb410ff61f20015ad)"
    );
    assert_eq!(x86::console::image_line("disk", None), "disk: <not loaded>");
}

#[test]
fn screen_dumps() {
    let px = [1u8, 2, 3, 4, 5, 6];
    let out = x86::console::screen_ppm(Some((2, 1, &px))).unwrap();
    assert_eq!(out, b"P6\n2 1\n255\n\x01\x02\x03\x04\x05\x06".to_vec());
    match x86::console::screen_ppm(Some((2, 2, &px))) {
        Err(x86::error::X86Error::InvalidImage(m)) => assert_eq!(m, "invalid framebuffer length"),
        other => panic!("unexpected {:?}", other.map(|v| v.len())),
    }
    match x86::console::screen_ppm(None) {
        Err(x86::error::X86Error::BackendUnavailable(m)) => {
            assert_eq!(m, "guest is not currently exposing a 32-bit graphical VGA framebuffer")
        }
        other => panic!("unexpected {:?}", other.map(|v| v.len())),
    }
}

#[test]
fn graphics_rows_cover_the_whole_height() {
    // Upper half red, lower half blue.
    let mut px = Vec::new();
    for y in 0..80 {
        for _ in 0..80 {
            if y < 40 {
                px.extend_from_slice(&[255, 0, 0]);
            } else {
                px.extend_from_slice(&[0, 0, 255]);
            }
        }
    }
    let out = String::from_utf8(render_vga_graphics(80, 80, &px).unwrap()).unwrap();
    let rows: Vec<&str> = out.split("\r\n").collect();
    let red = "\x1b[38;2;255;0;0m\x1b[48;2;255;0;0m\u{2580}";
    let blue = "\x1b[38;2;0;0;255m\x1b[48;2;0;0;255m\u{2580}";
    assert!(rows[0].ends_with(&format!("{}\x1b[0m", red)));
    assert!(rows[19].starts_with(red));
    assert!(rows[20].starts_with(blue));
    assert!(rows[39].starts_with(blue));
    assert_eq!(rows[39].matches(blue).count(), 80);
}

#[test]
fn route_of_text_routes_decoded_requests() {
    assert!(matches!(route_of_text("GET /health HTTP/1.1\r\n", true), Route::Health));
    assert!(matches!(route_of_text("GET / HTTP/1.1", false), Route::Index));
    assert!(matches!(route_of_text("GET ///a/b HTTP/1.1", true), Route::File(p) if p == "a/b"));
    assert!(matches!(route_of_text("GET /a/b HTTP/1.1", false), Route::NotFound));
}

#[test]
fn health_check_answer() {
    let route = route_request(b"GET /health?probe=1 HTTP/1.1\r\nHost: x\r\n\r\n", false);
    assert_eq!(
        answer(&route, None),
        b"HTTP/1.1 200 OK\r\nContent-Type: text/plain; charset=utf-8\r\nContent-Length: 3\r\nConnection: close\r\n\r\nok\n".to_vec()
    );
}

#[test]
fn answers_for_index_files_and_misses() {
    assert_eq!(
        answer(&Route::Index, None),
        b"HTTP/1.1 200 OK\r\nContent-Type: text/plain; charset=utf-8\r\nContent-Length: 28\r\nConnection: close\r\n\r\nx86-test-server\nGET /health\n".to_vec()
    );
    assert_eq!(
        answer(&Route::File("a.bin".to_string()), Some(vec![1, 2])),
        b"HTTP/1.1 200 OK\r\nContent-Type: application/octet-stream\r\nContent-Length: 2\r\nConnection: close\r\n\r\n\x01\x02".to_vec()
    );
    let not_found = b"HTTP/1.1 404 Not Found\r\nContent-Type: text/plain; charset=utf-8\r\nContent-Length: 10\r\nConnection: close\r\n\r\nnot found\n".to_vec();
    assert_eq!(answer(&Route::File("a.bin".to_string()), None), not_found);
    assert_eq!(answer(&Route::NotFound, None), not_found);
}

#[test]
fn valid_utf8_paths_are_decoded_exactly() {
    assert!(matches!(route_request("GET /café.img HTTP/1.1\r\n".as_bytes(), true), Route::File(p) if p == "café.img"));
}
