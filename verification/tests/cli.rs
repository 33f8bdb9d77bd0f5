use friidump::cli::{help, parse};
use friidump::Error;

fn s(v: &[&str]) -> Vec<String> {
    v.iter().map(|x| x.to_string()).collect()
}

#[test]
fn device_and_methods() {
    let o = parse(&s(&["-d", "/dev/sg0", "-T", "0", "-L", "-r", "a.raw", "-i", "a.iso"])).unwrap();
    assert_eq!(o.device.as_deref(), Some("/dev/sg0"));
    assert_eq!(o.disctype, Some(0));
    assert_eq!(o.dump_method, Some(12));
    assert_eq!(o.raw_out.as_deref(), Some("a.raw"));
}

#[test]
fn long_method_with_sec_spec() {
    let o = parse(&s(&["--method4=27,27"])).unwrap();
    assert_eq!(o.dump_method, Some(4));
    assert_eq!(o.sec_disc, Some(27));
    assert_eq!(o.sec_mem, Some(27));
}

#[test]
fn attached_short_value() {
    let o = parse(&s(&["-d/dev/sg0", "-K"])).unwrap();
    assert_eq!(o.device.as_deref(), Some("/dev/sg0"));
    assert_eq!(o.dump_method, Some(11));
}

#[test]
fn combined_flags() {
    let o = parse(&s(&["-gsH"])).unwrap();
    assert!(o.gui);
    assert!(o.resume);
    assert!(o.no_hashing);
}

#[test]
fn start_end_and_speed() {
    let o = parse(&s(&["-d", "x", "-t", "0", "-e", "2048", "-x", "24"])).unwrap();
    assert_eq!(o.start_sector, Some(0));
    assert_eq!(o.end_sector, Some(2048));
    assert_eq!(o.speed, Some(24));
}

#[test]
fn unknown_option_errors() {
    assert!(parse(&s(&["--bogus"])).is_err());
    assert!(parse(&s(&["-Z"])).is_err());
}

#[test]
fn defaults_without_arguments() {
    let o = parse(&[]).unwrap();
    assert_eq!(o.command, -1);
    assert!(o.device.is_none() && o.dump_method.is_none() && !o.resume && !o.help);
}

#[test]
fn long_values_with_equals_and_next_argument() {
    let o = parse(&s(&["--device=/dev/sg1", "--iso", "out.iso", "--command", " 2 ", "--type=3", "--size", "+100"])).unwrap();
    assert_eq!(o.device.as_deref(), Some("/dev/sg1"));
    assert_eq!(o.iso_out.as_deref(), Some("out.iso"));
    assert_eq!(o.command, 2);
    assert_eq!(o.disctype, Some(3));
    assert_eq!(o.sectors_no, Some(100));
}

#[test]
fn flags_that_imply_resume() {
    assert!(parse(&s(&["--autodump"])).unwrap().resume);
    let a = parse(&s(&["-A"])).unwrap();
    assert!(a.allmethods && a.resume);
    let h = parse(&s(&["--help", "ignored", "-p"])).unwrap();
    assert!(h.help && h.stop_unit);
}

#[test]
fn invalid_values_are_refused() {
    for args in [
        vec!["-T", "4"],
        vec!["-t", "-1"],
        vec!["-t", "4294967296"],
        vec!["-x", "fast"],
        vec!["-d"],
        vec!["--device"],
        vec!["--method"],
        vec!["--method4=27"],
        vec!["--method4=a,1"],
        vec!["-"],
        vec!["--gui=1"],
        vec!["-4=16,16"],
    ] {
        match parse(&s(&args)) {
            Err(Error::InvalidArgument(_)) => {}
            other => panic!("{args:?} gave {:?}", other.map(|o| o.dump_method)),
        }
    }
}

#[test]
fn digits_and_letters_select_methods() {
    assert_eq!(parse(&s(&["-7"])).unwrap().dump_method, Some(7));
    assert_eq!(parse(&s(&["-M"])).unwrap().dump_method, Some(13));
    assert_eq!(parse(&s(&["-3"])).unwrap().dump_method, Some(3));
    let o = parse(&s(&["--method12=16, 32,99"])).unwrap();
    assert_eq!((o.dump_method, o.sec_disc, o.sec_mem), (Some(12), Some(16), Some(32)));
    // A value option ends the group: "-gd" takes the next argument.
    let g = parse(&s(&["-gd", "dev"])).unwrap();
    assert!(g.gui);
    assert_eq!(g.device.as_deref(), Some("dev"));
}

#[test]
fn help_mentions_every_option() {
    let h = help();
    for opt in ["--device", "--raw", "--iso", "--unscramble", "--type", "--methodN"] {
        assert!(h.contains(opt), "{opt}");
    }
}
