use lookit::Events;
use lookit::Kind;
use lookit::Searcher;

#[test]
fn stub_platform_offers_no_searcher() {
    assert!(lookit::stub_searcher(Kind::Input).is_none());
    assert!(lookit::stub_searcher(Kind::Audio).is_none());
    assert!(lookit::stub_searcher(Kind::Midi).is_none());
    assert!(lookit::stub_searcher(Kind::Camera).is_none());
}

#[test]
fn stub_platform_never_yields() {
    // A caller holding the stub's answer polls forever without a device and
    // without a panic: there is no searcher whose poll could ever be ready.
    let held: Option<Searcher> = lookit::stub_searcher(Kind::Input);
    for _ in 0..1000 {
        match held {
            Some(_) => panic!("the stub platform must not produce a searcher"),
            None => (),
        }
    }
}

#[test]
fn stub_open_hands_the_device_back() {
    let searcher = Searcher::with_camera();
    let found = searcher.scan_entry(b"video0").expect("matching entry");
    let result: Result<i32, lookit::Found> = lookit::stub_open(found, Events::All);
    let back = result.expect_err("the stub never opens");
    assert_eq!(back.path(), "/dev/video0");
    let result: Result<i32, lookit::Found> = lookit::stub_open(back, Events::Read);
    let back = result.expect_err("the stub never opens");
    assert_eq!(back.path(), "/dev/video0");
}
