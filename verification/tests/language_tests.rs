use tapi::language::Language;

#[test]
fn get_falls_back_to_the_key() {
    let mut language = Language::new();
    assert!(language.strings.is_empty());
    assert_eq!(language.get("start"), "start");
    language.set("start".into(), "Başlat".into());
    assert_eq!(language.get("start"), "Başlat");
    language.set("start".into(), "Start".into());
    assert_eq!(language.get("start"), "Start");
    assert_eq!(language.strings.len(), 1);
    assert_eq!(Language::default().get("k"), "k");
}

#[test]
fn load_reads_the_strings_section() {
    let content = "; comment\n# another\n\n[meta]\nname = Türkçe\n[strings]\r\n start = Başlat \nstop=Dur\nbroken line\nurl = a=b\n[other]\nstart = ignored\n[strings]\nstart = Tekrar";
    let language = Language::load(content);
    assert_eq!(language.get("start"), "Tekrar");
    assert_eq!(language.get("stop"), "Dur");
    assert_eq!(language.get("url"), "a=b");
    assert_eq!(language.get("name"), "name");
    assert_eq!(language.get("broken line"), "broken line");
    assert_eq!(language.strings.len(), 3);
}

#[test]
fn load_of_odd_files() {
    assert!(Language::load("").strings.is_empty());
    assert!(Language::load("start = x").strings.is_empty());
    let language = Language::load("[strings]\n=v\nk=\n [ strings ] \nz = 1\n[strings]\n[\nq=2\n");
    assert_eq!(language.get(""), "v");
    assert_eq!(language.get("k"), "");
    assert_eq!(language.get("z"), "z");
    assert_eq!(language.get("q"), "2");
}

#[test]
fn of_two_pairs_with_one_key_the_later_counts() {
    let mut language = Language {
        strings: vec![
            ("start".to_string(), "first".to_string()),
            ("stop".to_string(), "Dur".to_string()),
            ("start".to_string(), "second".to_string()),
        ],
    };
    assert_eq!(language.get("start"), "second");
    language.set("start".into(), "third".into());
    assert_eq!(language.get("start"), "third");
    assert_eq!(language.get("stop"), "Dur");
    assert_eq!(language.strings.len(), 3);
}
