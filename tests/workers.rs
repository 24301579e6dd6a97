use gamdam::cmdline::{annex_command_line, command_line};
use std::collections::VecDeque;
use gamdam::worker::{stdin_codec, stdout_codec, teardown_for, Teardown, MAX_INPUT_LEN};

#[test]
fn command_lines_are_shell_quoted() {
    let args = vec![String::from("commit"), String::from("-m"), String::from("Downloaded 3 URLs")];
    assert_eq!(command_line("git", &args), "git commit -m 'Downloaded 3 URLs'");
    let args = vec![String::from("it's")];
    assert_eq!(command_line("my prog", &args), r"'my prog' 'it'\''s'");
    assert_eq!(command_line("git", &vec![]), "git ");
}

#[test]
fn annex_command_line_names_git_annex() {
    let args = vec![String::from("--batch"), String::from("--json")];
    assert_eq!(annex_command_line("metadata", &args), "git-annex metadata --batch --json");
}

#[test]
fn teardown_depends_on_outcome() {
    assert_eq!(teardown_for(true), Teardown::Wait);
    assert_eq!(teardown_for(false), Teardown::Terminate { grace_secs: 3 });
}

#[test]
fn worker_output_lines_are_bounded() {
    let mut codec = stdout_codec();
    let mut buf: VecDeque<u8> = vec![b'x'; MAX_INPUT_LEN].into();
    buf.push_back(b'\n');
    assert_eq!(codec.decode(&mut buf).unwrap().map(|f| f.len()), Some(MAX_INPUT_LEN));
    let mut buf: VecDeque<u8> = vec![b'x'; MAX_INPUT_LEN + 1].into();
    assert!(codec.decode(&mut buf).is_err());
    let mut codec = stdin_codec();
    let mut buf: VecDeque<u8> = vec![b'y'; MAX_INPUT_LEN + 10].into();
    assert_eq!(codec.decode(&mut buf).unwrap(), None);
}
