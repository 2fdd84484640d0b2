use cosmic_files::thumbnailer::Thumbnailer;

fn args_of(exec: &str) -> Vec<String> {
    let command = Thumbnailer { exec_line: exec.to_string() }
        .command("/home/user/input.stl", "/home/user/.cache/thumbnails/out.png", 512)
        .expect("should build command");
    std::iter::once(command.program).chain(command.args).collect()
}

#[test]
fn substitutes_codes_embedded_in_arguments() {
    let args = args_of(
        "f3d --config=thumbnail --load-plugins=native --verbose=quiet --output=%o --resolution=%s,%s %i",
    );
    assert_eq!(
        args,
        [
            "f3d",
            "--config=thumbnail",
            "--load-plugins=native",
            "--verbose=quiet",
            "--output=/home/user/.cache/thumbnails/out.png",
            "--resolution=512,512",
            "/home/user/input.stl",
        ]
    );
}

#[test]
fn substitutes_input_code_with_suffix() {
    let args = args_of("convert %i[0] -background \"#FFFFFF\" -flatten -thumbnail %s %o");
    assert_eq!(
        args,
        [
            "convert",
            "/home/user/input.stl[0]",
            "-background",
            "#FFFFFF",
            "-flatten",
            "-thumbnail",
            "512",
            "/home/user/.cache/thumbnails/out.png",
        ]
    );
}

#[test]
fn double_percent_is_literal_percent() {
    let args = args_of("foo --scale=100%% %i");
    assert_eq!(args, ["foo", "--scale=100%", "/home/user/input.stl"]);
}

#[test]
fn trailing_percent_is_ignored() {
    let args = args_of("foo --label=% %i");
    assert_eq!(args, ["foo", "--label=", "/home/user/input.stl"]);
}

#[test]
fn rejects_unknown_codes_embedded_in_arguments() {
    let command = Thumbnailer { exec_line: "foo --output=%o --color=%z %i".into() }.command("/in", "/out", 512);
    assert!(command.is_none());
}

#[test]
fn size_is_written_in_decimal() {
    let command = Thumbnailer { exec_line: "t %s".into() }.command("/in", "/out", 1024).unwrap();
    assert_eq!(command.program, "t");
    assert_eq!(command.args, ["1024"]);
}
