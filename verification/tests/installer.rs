use modlua::installer::{LinuxInstaller, SupportVerdict};

const PLAIN_SCRIPT: &str = "#!/bin/bash\nhere=\"$(dirname \"$0\")\"\ncd \"$here\"\nexec \"$here/FTL.amd64\" \"$@\"\n";

#[test]
fn supported_goes_by_binary_size() {
    let ins = LinuxInstaller;
    assert_eq!(ins.supported(Some(72443660)), SupportVerdict::Supported);
    assert_eq!(ins.supported(Some(5)), SupportVerdict::UnrecognizedSize(5));
    assert_eq!(ins.supported(None), SupportVerdict::BinaryNotFound);
}

#[test]
fn shared_objects_are_selected_and_renamed() {
    let ins = LinuxInstaller;
    let names: Vec<Vec<u8>> = [
        "Linux/Hyperspace.1.6.13.amd64.so",
        "Linux/libz.so",
        "Windows/Hyperspace.dll",
        "Linux/nested/bad.so",
        "README.md",
        "Linux/libfoo.so.1.2",
    ]
    .iter()
    .map(|s| s.as_bytes().to_vec())
    .collect();
    let targets = ins.shared_object_targets(&names);
    let got: Vec<(String, String)> = targets
        .iter()
        .map(|(s, d)| {
            (
                String::from_utf8(s.clone()).unwrap(),
                String::from_utf8(d.clone()).unwrap(),
            )
        })
        .collect();
    assert_eq!(
        got,
        vec![
            (
                "Linux/Hyperspace.1.6.13.amd64.so".to_string(),
                "Hyperspace.1.6.13.amd64.so".to_string()
            ),
            ("Linux/libz.so".to_string(), "libz.so".to_string()),
            ("Linux/libfoo.so.1.2".to_string(), "libfoo.so.1.2".to_string()),
        ]
    );
}

#[test]
fn patching_adds_both_exports_before_the_launch_line() {
    let ins = LinuxInstaller;
    let script = PLAIN_SCRIPT.as_bytes().to_vec();
    let patched = ins.patch_start_script(&script, true);
    let expected = "#!/bin/bash\nhere=\"$(dirname \"$0\")\"\ncd \"$here\"\n\
        export LD_PRELOAD=Hyperspace.1.6.13.amd64.so\n\
        export LD_LIBRARY_PATH=\"$here:$LD_LIBRARY_PATH\"\n\
        exec \"$here/FTL.amd64\" \"$@\"\n";
    assert_eq!(String::from_utf8(patched).unwrap(), expected);
}

#[test]
fn patching_replaces_a_recognized_preload_object() {
    let ins = LinuxInstaller;
    let script = "#!/bin/bash\n\
        export LD_PRELOAD=\"Hyperspace.1.6.12.amd64.so\"\n\
        export LD_LIBRARY_PATH=\"$here:$LD_LIBRARY_PATH\"\n\
        exec \"$here/FTL.amd64\" \"$@\"\n"
        .as_bytes()
        .to_vec();
    let patched = ins.patch_start_script(&script, true);
    let expected = "#!/bin/bash\n\
        export LD_PRELOAD=Hyperspace.1.6.13.amd64.so\n\
        export LD_LIBRARY_PATH=\"$here:$LD_LIBRARY_PATH\"\n\
        exec \"$here/FTL.amd64\" \"$@\"\n";
    assert_eq!(String::from_utf8(patched).unwrap(), expected);
}

#[test]
fn patching_leaves_a_foreign_preload_alone() {
    let ins = LinuxInstaller;
    let script = "#!/bin/bash\n\
        export LD_PRELOAD=custom_hook.so\n\
        export LD_LIBRARY_PATH=\"$here:$LD_LIBRARY_PATH\"\n\
        exec \"$here/FTL.amd64\" \"$@\"\n"
        .as_bytes()
        .to_vec();
    let patched = ins.patch_start_script(&script, false);
    assert_eq!(patched, script);
}

#[test]
fn an_unrecognized_script_is_left_untouched() {
    let ins = LinuxInstaller;
    let script = b"#!/bin/bash\necho modified beyond recognition\n".to_vec();
    let patched = ins.patch_start_script(&script, true);
    assert_eq!(patched, script);
}

#[test]
fn disabling_strips_the_preload_export() {
    let ins = LinuxInstaller;
    let script = "#!/bin/bash\n\
        export LD_PRELOAD=Hyperspace.1.6.13.amd64.so\n\
        exec \"$here/FTL.amd64\" \"$@\"\n"
        .as_bytes()
        .to_vec();
    let out = ins.disable(&script).unwrap();
    assert_eq!(
        String::from_utf8(out).unwrap(),
        "#!/bin/bash\nexec \"$here/FTL.amd64\" \"$@\"\n"
    );

    let untouched = PLAIN_SCRIPT.as_bytes().to_vec();
    assert!(ins.disable(&untouched).is_none());
}
