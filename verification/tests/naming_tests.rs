use framegen::encoder::encoder_args;
use framegen::naming::frame_file_name;
use framegen::naming::frame_file_path;
use framegen::naming::frame_file_path_pattern;
use framegen::naming::frame_file_pattern;
use framegen::naming::pixmap_file_header;
use framegen::naming::push_decimal;

#[test]
fn frame_names_count_from_zero() {
    assert_eq!(frame_file_name(0, "ppm"), "f0.ppm");
    assert_eq!(frame_file_name(1, "ppm"), "f1.ppm");
    assert_eq!(frame_file_name(9, "ppm"), "f9.ppm");
    assert_eq!(frame_file_name(10, "ppm"), "f10.ppm");
    assert_eq!(frame_file_name(59, "png"), "f59.png");
    assert_eq!(frame_file_name(1200, "ppm"), "f1200.ppm");
}

#[test]
fn frame_names_match_std_formatting() {
    for index in (0..3000usize).chain([usize::MAX - 1, usize::MAX]) {
        assert_eq!(frame_file_name(index, "ppm"), format!("f{}.ppm", index));
    }
}

#[test]
fn decimal_is_appended() {
    let mut text = String::from("n=");
    push_decimal(&mut text, 407);
    assert_eq!(text, "n=407");
    push_decimal(&mut text, 0);
    assert_eq!(text, "n=4070");
    push_decimal(&mut text, u64::MAX as usize);
    assert_eq!(text, "n=407018446744073709551615");
}

#[test]
fn pattern_has_the_index_placeholder() {
    assert_eq!(frame_file_pattern("ppm"), "f%d.ppm");
    assert_eq!(frame_file_pattern(""), "f%d.");
}

#[test]
fn pixmap_header_lines() {
    assert_eq!(pixmap_file_header(720, 480), "P6\n720\n480\n255\n");
    assert_eq!(pixmap_file_header(4, 4), "P6\n4\n4\n255\n");
    assert_eq!(pixmap_file_header(0, 10), "P6\n0\n10\n255\n");
}

#[test]
fn frame_paths_join_directory_and_name() {
    assert_eq!(frame_file_path("./frames", 0, "ppm"), "./frames/f0.ppm");
    assert_eq!(frame_file_path("./frames", 59, "ppm"), "./frames/f59.ppm");
    assert_eq!(frame_file_path("", 7, "png"), "/f7.png");
    assert_eq!(frame_file_path_pattern("./frames", "ppm"), "./frames/f%d.ppm");
    for index in 0..200usize {
        assert_eq!(
            frame_file_path("out", index, "ppm"),
            format!("out/{}", frame_file_name(index, "ppm"))
        );
    }
}

#[test]
fn different_frames_have_different_names() {
    let mut names: Vec<String> = (0..1000usize).map(|k| frame_file_name(k, "ppm")).collect();
    names.sort();
    names.dedup();
    assert_eq!(names.len(), 1000);
}

#[test]
fn encoder_arguments_in_order() {
    assert_eq!(
        encoder_args("./frames", "ppm", 30, "render.mp4"),
        vec![
            "-hide_banner",
            "-loglevel",
            "error",
            "-y",
            "-framerate",
            "30",
            "-i",
            "./frames/f%d.ppm",
            "-pix_fmt",
            "yuv420p",
            "render.mp4",
        ]
    );
    assert_eq!(encoder_args("d", "png", 0, "")[5], "0");
    assert_eq!(encoder_args("d", "png", 125, "x.gif")[5], "125");
    assert_eq!(encoder_args("d", "png", 125, "x.gif")[7], "d/f%d.png");
    assert_eq!(encoder_args("d", "png", 125, "x.gif")[10], "x.gif");
}
