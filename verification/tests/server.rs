use broadcast::failure::ServerError;
use broadcast::message::{CommandRequest, PathText};
use broadcast::path::convert_win_to_wsl_path;
use broadcast::protocol::{decode_msg, encode_msg, ProtocolError};
use broadcast::server::{
    accept_quoted, accept_request, initial_size, open_request, pty_size, shell_command, working_dir, PtySize,
    ShellCommand,
};

fn path(text: &str) -> PathText {
    PathText::new(text.to_string())
}

fn request(dir: &str, wsl_mode: bool) -> CommandRequest {
    CommandRequest {
        command: "make all".to_string(),
        working_dir: path(dir),
        wsl_mode,
        terminal_size: None,
        interactive: false,
    }
}

#[test]
fn test_path_conversion() {
    assert_eq!(
        convert_win_to_wsl_path(&path("C:\\Users\\Username")).unwrap(),
        path("/mnt/c/Users/Username")
    );

    assert_eq!(
        convert_win_to_wsl_path(&path("D:\\Projects\\Test")).unwrap(),
        path("/mnt/d/Projects/Test")
    );

    assert!(convert_win_to_wsl_path(&path("")).is_err());
}

#[test]
fn empty_path_is_named_as_such() {
    assert_eq!(
        convert_win_to_wsl_path(&path("")),
        Err(ServerError::InvalidPath("Empty path provided".to_string()))
    );
}

#[test]
fn drive_forms() {
    assert_eq!(convert_win_to_wsl_path(&path("C:")).unwrap(), path("/mnt/c"));
    assert_eq!(convert_win_to_wsl_path(&path("C")).unwrap(), path("/mnt/c"));
    assert_eq!(convert_win_to_wsl_path(&path("c:/a/b")).unwrap(), path("/mnt/c/a/b"));
    assert_eq!(convert_win_to_wsl_path(&path("c::\\a:b")).unwrap(), path("/mnt/c/a:b"));
    assert_eq!(convert_win_to_wsl_path(&path("Ä:\\ü")).unwrap(), path("/mnt/Ä/ü"));
    assert_eq!(convert_win_to_wsl_path(&path("Z:\\")).unwrap(), path("/mnt/z/"));
    assert_eq!(convert_win_to_wsl_path(&path("\\\\srv\\x")).unwrap(), path("/mnt/\\/srv/x"));
}

#[test]
fn path_that_is_not_unicode_is_converted_as_its_text() {
    let odd = PathText { text: "C:\\\u{fffd}".to_string(), unicode: false };
    assert_eq!(convert_win_to_wsl_path(&odd).unwrap(), path("/mnt/c/\u{fffd}"));
}

#[test]
fn separators_and_drive_case_do_not_matter() {
    let form = convert_win_to_wsl_path(&path("C:\\a\\b")).unwrap();
    assert_eq!(convert_win_to_wsl_path(&path("C:/a/b")).unwrap(), form);
    assert_eq!(convert_win_to_wsl_path(&path("c:\\a/b")).unwrap(), form);
    assert!(!form.text.contains('\\'));
    assert!(form.text.starts_with("/mnt/"));
}

#[test]
fn directory_is_converted_on_demand() {
    assert_eq!(working_dir(&request("C:\\x", true)), Ok(path("/mnt/c/x")));
    assert_eq!(working_dir(&request("C:\\x", false)), Ok(path("C:\\x")));
    assert_eq!(working_dir(&request("", false)), Ok(path("")));
    assert_eq!(
        working_dir(&request("", true)),
        Err(ServerError::InvalidPath("Empty path provided".to_string()))
    );
}

#[test]
fn request_runs_in_the_directory_found() {
    let taken = accept_request(request("C:\\x", true), path("/mnt/c/x"), true).unwrap();
    let mut expected = request("C:\\x", true);
    expected.working_dir = path("/mnt/c/x");
    assert_eq!(taken, expected);
}

#[test]
fn missing_directory_is_quoted() {
    assert_eq!(
        accept_request(request("/no\"where", false), path("/no\"where"), false),
        Err(ServerError::InvalidPath(
            "The specified working directory does not exist: \"/no\\\"where\"".to_string()
        ))
    );
    assert_eq!(
        accept_quoted(request("/x", false), path("/x"), false, "<x>"),
        Err(ServerError::InvalidPath(
            "The specified working directory does not exist: <x>".to_string()
        ))
    );
}

#[test]
fn terminal_sizes() {
    let size = PtySize { rows: 24, cols: 80, pixel_width: 0, pixel_height: 0 };
    assert_eq!(initial_size(&request("/", false)), size);
    assert_eq!(pty_size(80, 24), size);
    let mut sized = request("/", false);
    sized.terminal_size = Some((132, 43));
    assert_eq!(
        initial_size(&sized),
        PtySize { rows: 43, cols: 132, pixel_width: 0, pixel_height: 0 }
    );
}

#[test]
fn command_runs_in_a_shell() {
    assert_eq!(
        shell_command(&request("/srv", false)),
        ShellCommand {
            program: "sh".to_string(),
            args: vec!["-c".to_string(), "make all".to_string()],
            cwd: path("/srv"),
        }
    );
}

#[test]
fn interactive_request_gets_a_bare_shell() {
    let mut asked = request("/srv", false);
    asked.interactive = true;
    assert_eq!(
        shell_command(&asked),
        ShellCommand { program: "sh".to_string(), args: vec![], cwd: path("/srv") }
    );
}

#[test]
fn received_request_is_opened() {
    let frame = encode_msg(&request("C:\\x", true)).unwrap();
    let mut reader: &[u8] = &frame;
    let (opened, dir) = open_request(decode_msg(&mut reader)).unwrap();
    assert_eq!(opened, request("C:\\x", true));
    assert_eq!(dir, path("/mnt/c/x"));
}

#[test]
fn request_that_cannot_be_opened_says_why() {
    let lost = ProtocolError::Io("early eof".to_string());
    let mut reader: &[u8] = &[0, 0];
    assert_eq!(open_request(decode_msg(&mut reader)), Err(ServerError::Protocol(lost)));
    assert_eq!(
        open_request(Ok(request("", true))),
        Err(ServerError::InvalidPath("Empty path provided".to_string()))
    );
}
