use arc_handles::channel::Channel;

#[test]
fn one_shot_roundtrip() {
    let mut c = Channel::new();
    assert!(!c.is_ready());
    c.send("hoho");
    assert!(c.is_ready());
    assert_eq!(c.receive(), "hoho");
    assert!(!c.is_ready());
}

#[test]
fn fresh_channel_is_not_ready() {
    let c: Channel<u32> = Channel::new();
    assert!(!c.is_ready());
}

#[test]
fn receive_clears_readiness() {
    let mut c: Channel<String> = Channel::new();
    c.send(String::from("once"));
    let got = c.receive();
    assert_eq!(got.as_str(), "once");
    assert!(!c.is_ready());
}
