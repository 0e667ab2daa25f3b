use include_dir::{Dir, File};
use init::blocks::RenderError;
use init::parse::InitConfig;
use init::render::{
    destination_path, needs_blocks, removal_paths, render, render_file, render_files, render_text,
    RenderFailure,
};
use init::ProjectConfig;

fn config(extras: &[&str]) -> ProjectConfig {
    ProjectConfig {
        language: "rust".to_string(),
        name: "My App".to_string(),
        folder_name: "my-app".to_string(),
        author: "Jo".to_string(),
        description: "A thing".to_string(),
        extras: extras.iter().map(|s| s.to_string()).collect(),
        git: false,
        verbose: false,
    }
}

fn manifest(flagged: Option<Vec<&str>>) -> InitConfig {
    InitConfig {
        language: "rust".to_string(),
        files: None,
        commands: None,
        files_containing_extras: flagged.map(|l| l.iter().map(|s| s.to_string()).collect()),
        extras: None,
    }
}

fn library() -> Dir<'static> {
    Dir {
        path: "",
        files: &[],
        dirs: &[Dir {
            path: "rust",
            files: &[
                File {
                    path: "rust/Dockerfile",
                    contents: b"# {{projectName}}\n#!startExtra \"docker\"\nFROM x\n#!endExtra\nby {{author}}\n",
                },
                File {
                    path: "rust/{{projectNameLower}}.txt",
                    contents: b"{{projectDescription}}\r\n",
                },
                File {
                    path: "rust/broken",
                    contents: b"#!startExtra \"docker\"\nFROM x\n",
                },
                File {
                    path: "rust/binary",
                    contents: &[0xff, 0xfe],
                },
            ],
            dirs: &[],
        }],
    }
}

const BLOCK: &str = "# {{projectName}}\n#!startExtra \"docker\"\nFROM x\n#!endExtra\nby {{author}}\n";

#[test]
fn missing_template_is_not_found() {
    assert_eq!(render_text(None, true, &config(&[])), Err(RenderError::NotFound));
    assert_eq!(render_text(None, false, &config(&[])), Err(RenderError::NotFound));
}

#[test]
fn blocks_then_placeholders() {
    assert_eq!(
        render_text(Some(BLOCK), true, &config(&["docker"])),
        Ok("# My App\nFROM x\nby Jo\n".to_string())
    );
    assert_eq!(
        render_text(Some(BLOCK), true, &config(&[])),
        Ok("# My App\nby Jo\n".to_string())
    );
}

#[test]
fn unflagged_text_keeps_its_markers() {
    assert_eq!(
        render_text(Some(BLOCK), false, &config(&[])),
        Ok("# My App\n#!startExtra \"docker\"\nFROM x\n#!endExtra\nby Jo\n".to_string())
    );
}

#[test]
fn malformed_block_aborts_only_where_flagged() {
    let text = "#!startExtra \"docker\"\nFROM x\n";
    assert_eq!(
        render_text(Some(text), true, &config(&[])),
        Err(RenderError::MalformedBlock)
    );
    assert_eq!(render_text(Some(text), false, &config(&[])), Ok(text.to_string()));
}

#[test]
fn unflagged_text_keeps_its_line_ends() {
    assert_eq!(
        render_text(Some("a\r\nb\r\n"), false, &config(&[])),
        Ok("a\r\nb\r\n".to_string())
    );
    assert_eq!(
        render_text(Some("a\r\nb\rc"), false, &config(&[])),
        Ok("a\r\nb\rc".to_string())
    );
}

#[test]
fn markers_leave_with_their_line_ends_and_other_lines_stay() {
    let text = "a\r\n#!startExtra \"docker\"\r\nFROM x\r\n#!endExtra\r\nb\r\n";
    assert_eq!(
        render_text(Some(text), true, &config(&["docker"])),
        Ok("a\r\nFROM x\r\nb\r\n".to_string())
    );
    assert_eq!(
        render_text(Some(text), true, &config(&[])),
        Ok("a\r\nb\r\n".to_string())
    );
    let mixed = "a\r\n#!startExtra \"docker\"\nFROM x\n#!endExtra\r\nb\n";
    assert_eq!(
        render_text(Some(mixed), true, &config(&["docker"])),
        Ok("a\r\nFROM x\nb\n".to_string())
    );
}

#[test]
fn carriage_return_at_the_end_of_the_text_belongs_to_the_line() {
    let text = "#!startExtra \"docker\"\nFROM x\n#!endExtra\r";
    assert_eq!(
        render_text(Some(text), true, &config(&["docker"])),
        Err(RenderError::MalformedBlock)
    );
}

#[test]
fn render_reads_the_library() {
    let dir = library();
    assert_eq!(
        render(&dir, "rust/Dockerfile", true, &config(&[])),
        Ok("# My App\nby Jo\n".to_string())
    );
    assert_eq!(
        render(&dir, "rust/nothing", true, &config(&[])),
        Err(RenderError::NotFound)
    );
    assert_eq!(
        render(&dir, "rust/binary", false, &config(&[])),
        Err(RenderError::NotFound)
    );
    assert_eq!(
        render(&dir, "rust/broken", true, &config(&[])),
        Err(RenderError::MalformedBlock)
    );
}

#[test]
fn order_of_rendering_does_not_matter() {
    let dir = library();
    let c = config(&["docker"]);
    let a_first = render(&dir, "rust/Dockerfile", true, &c);
    let b_second = render(&dir, "rust/{{projectNameLower}}.txt", false, &c);
    let b_first = render(&dir, "rust/{{projectNameLower}}.txt", false, &c);
    let a_second = render(&dir, "rust/Dockerfile", true, &c);
    assert_eq!(a_first, a_second);
    assert_eq!(b_first, b_second);
    assert_eq!(b_first, Ok("A thing\r\n".to_string()));
}

#[test]
fn flags_come_from_the_manifest() {
    let m = manifest(Some(vec!["Dockerfile"]));
    assert!(needs_blocks(&m, "Dockerfile"));
    assert!(!needs_blocks(&m, "main.rs"));
    assert!(!needs_blocks(&manifest(None), "Dockerfile"));
}

#[test]
fn destination_is_below_the_folder() {
    assert_eq!(
        destination_path("src/{{projectNameLower}}.rs", &config(&[])),
        "my-app/src/my_app.rs"
    );
}

#[test]
fn files_are_rendered_in_order() {
    let dir = library();
    let files = vec![
        "Dockerfile".to_string(),
        "{{projectNameLower}}.txt".to_string(),
    ];
    let out = render_files(
        &files,
        &dir,
        &config(&["docker"]),
        &manifest(Some(vec!["Dockerfile"])),
    )
    .unwrap();
    assert_eq!(out.len(), 2);
    assert_eq!(out[0].path, "my-app/Dockerfile");
    assert_eq!(out[0].contents, "# My App\nFROM x\nby Jo\n");
    assert_eq!(out[1].path, "my-app/my_app.txt");
    assert_eq!(out[1].contents, "A thing\r\n");
}

#[test]
fn first_failing_file_stops_the_rendering() {
    let dir = library();
    let m = manifest(Some(vec!["broken"]));
    let files = vec!["Dockerfile".to_string(), "broken".to_string(), "gone".to_string()];
    assert_eq!(
        render_files(&files, &dir, &config(&[]), &m).err(),
        Some(RenderFailure {
            index: 1,
            error: RenderError::MalformedBlock
        })
    );
    let files = vec!["gone".to_string(), "broken".to_string()];
    assert_eq!(
        render_files(&files, &dir, &config(&[]), &m).err(),
        Some(RenderFailure {
            index: 0,
            error: RenderError::NotFound
        })
    );
    assert_eq!(render_files(&Vec::new(), &dir, &config(&[]), &m).unwrap().len(), 0);
}

#[test]
fn excluded_files_are_named_below_the_folder() {
    let files = vec!["a.txt".to_string(), "{{author}}/b".to_string()];
    assert_eq!(
        removal_paths(&files, &config(&[])),
        vec!["my-app/a.txt".to_string(), "my-app/Jo/b".to_string()]
    );
}

#[test]
fn one_file_is_rendered_by_itself() {
    let dir = library();
    let m = manifest(Some(vec!["Dockerfile", "broken"]));
    let out = render_file("Dockerfile", &dir, &config(&[]), &m).unwrap();
    assert_eq!(out.path, "my-app/Dockerfile");
    assert_eq!(out.contents, "# My App\nby Jo\n");
    assert_eq!(
        render_file("broken", &dir, &config(&[]), &m).err(),
        Some(RenderError::MalformedBlock)
    );
    assert_eq!(
        render_file("gone", &dir, &config(&[]), &m).err(),
        Some(RenderError::NotFound)
    );
}

#[test]
fn malformed_first_file_stops_the_run_before_the_second() {
    let dir = library();
    let m = manifest(Some(vec!["broken", "Dockerfile"]));
    let files = vec!["broken".to_string(), "Dockerfile".to_string()];
    assert_eq!(
        render_files(&files, &dir, &config(&["docker"]), &m).err(),
        Some(RenderFailure {
            index: 0,
            error: RenderError::MalformedBlock
        })
    );
}
