use sing_box_config_api::path::UnixPath;
use std::path::Path;

fn texts(alphabet: &[&str], longest: usize) -> Vec<String> {
    let mut all = vec![String::new()];
    let mut last = vec![String::new()];
    for _ in 0..longest {
        let mut next = Vec::new();
        for text in &last {
            for part in alphabet {
                next.push(format!("{text}{part}"));
            }
        }
        all.extend(next.iter().cloned());
        last = next;
    }
    all
}

fn text_of(path: &UnixPath) -> String {
    String::from_utf8(path.bytes.clone()).expect("text")
}

fn name_of(name: Option<Vec<u8>>) -> Option<String> {
    name.map(|bytes| String::from_utf8(bytes).expect("text"))
}

#[test]
fn file_names_and_extensions_are_those_of_the_system() {
    for text in texts(&["/", ".", "a", "é"], 6) {
        let path = UnixPath::new(&text);
        let known = Path::new(&text);
        let name = known.file_name().map(|name| name.to_str().expect("text").to_string());
        assert_eq!(name_of(path.file_name()), name, "{text}");
        let extension = known.extension().map(|ext| ext.to_str().expect("text").to_string());
        assert_eq!(name_of(path.extension()), extension, "{text}");
        assert_eq!(path.is_absolute(), known.is_absolute(), "{text}");
    }
}

#[test]
fn parents_are_those_of_the_system() {
    for text in texts(&["/", ".", "a"], 8) {
        let parent = UnixPath::new(&text).parent().map(|path| text_of(&path));
        let known = Path::new(&text).parent().map(|path| path.to_str().expect("text").to_string());
        assert_eq!(parent, known, "{text}");
    }
}

#[test]
fn joined_and_compared_as_the_system_does() {
    let all = texts(&["/", ".", "a"], 4);
    for left in &all {
        for right in &all {
            let joined = UnixPath::new(left).join(&UnixPath::new(right));
            let known = Path::new(left).join(right);
            assert_eq!(text_of(&joined), known.to_str().expect("text"), "{left} {right}");
            let same = UnixPath::new(left).same_as(&UnixPath::new(right));
            assert_eq!(same, Path::new(left) == Path::new(right), "{left} {right}");
        }
    }
}

#[test]
fn bytes_that_are_no_text_are_replaced_for_display() {
    let path = UnixPath { bytes: vec![b'/', 0xff, b'a'] };
    assert_eq!(path.display(), "/\u{fffd}a");
    assert_eq!(UnixPath::new("/é").display(), "/é");
    assert_eq!(path.copy().bytes, path.bytes);
}
