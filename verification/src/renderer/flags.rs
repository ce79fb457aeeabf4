//! Chromium switches that make rendering deterministic and headless-safe.
use crate::text::{has_prefix, push_text as push_flag, texts};
use vstd::prelude::*;

verus! {

/// The operating system a render runs on (it picks the GPU backend).
pub enum Platform {
    MacOs,
    Windows,
    Linux,
    Other,
}

/// The switches every platform gets, in order.
pub open spec fn common_flags() -> Seq<Seq<char>> {
    seq![
        "use-mock-keychain"@,
        "enable-begin-frame-control"@,
        "disable-threaded-animation"@,
        "disable-threaded-scrolling"@,
        "disable-checker-imaging"@,
        "disable-image-animation-resync"@,
        "disable-features=PaintHolding"@,
        "force-device-scale-factor=1"@,
        "force-color-profile=srgb"@,
        "font-render-hinting=none"@,
        "disable-web-security"@,
        "disable-site-isolation-trials"@,
        "allow-file-access-from-files"@,
        "ignore-certificate-errors"@,
        "disable-dev-shm-usage"@,
        "deny-permission-prompts"@,
        "disable-notifications"@,
        "mute-audio"@,
        "autoplay-policy=no-user-gesture-required"@,
        "disable-background-networking"@,
        "disable-background-timer-throttling"@,
        "disable-renderer-backgrounding"@,
        "disable-backgrounding-occluded-windows"@,
        "disable-extensions"@,
        "disable-default-apps"@,
        "disable-popup-blocking"@,
        "disable-prompt-on-repost"@,
        "disable-sync"@,
        "disable-blink-features=AutomationControlled"@,
        "no-default-browser-check"@,
        "no-first-run"@,
        "ignore-gpu-blocklist"@,
        "disable-gpu-sandbox"@
    ]
}

/// The GPU-backend switches of a platform.
pub open spec fn platform_flags(platform: Platform) -> Seq<Seq<char>> {
    match platform {
        Platform::MacOs => seq!["use-angle=metal"@],
        Platform::Windows => seq!["use-angle=d3d11"@],
        Platform::Linux => seq!["use-angle=vulkan"@, "disable-vulkan-surface"@, "enable-features=Vulkan"@],
        Platform::Other => Seq::empty(),
    }
}


/// The switches for `platform`: the common ones, then its GPU backend's.
/// A `key=value` switch is passed as a switch with a value.
pub fn deterministic_flags(platform: Platform) -> (flags: Vec<String>)
    ensures
        texts(flags@) == common_flags() + platform_flags(platform),
{
    let mut flags: Vec<String> = Vec::new();
    push_flag(&mut flags, "use-mock-keychain");
    push_flag(&mut flags, "enable-begin-frame-control");
    push_flag(&mut flags, "disable-threaded-animation");
    push_flag(&mut flags, "disable-threaded-scrolling");
    push_flag(&mut flags, "disable-checker-imaging");
    push_flag(&mut flags, "disable-image-animation-resync");
    push_flag(&mut flags, "disable-features=PaintHolding");
    push_flag(&mut flags, "force-device-scale-factor=1");
    push_flag(&mut flags, "force-color-profile=srgb");
    push_flag(&mut flags, "font-render-hinting=none");
    push_flag(&mut flags, "disable-web-security");
    push_flag(&mut flags, "disable-site-isolation-trials");
    push_flag(&mut flags, "allow-file-access-from-files");
    push_flag(&mut flags, "ignore-certificate-errors");
    push_flag(&mut flags, "disable-dev-shm-usage");
    push_flag(&mut flags, "deny-permission-prompts");
    push_flag(&mut flags, "disable-notifications");
    push_flag(&mut flags, "mute-audio");
    push_flag(&mut flags, "autoplay-policy=no-user-gesture-required");
    push_flag(&mut flags, "disable-background-networking");
    push_flag(&mut flags, "disable-background-timer-throttling");
    push_flag(&mut flags, "disable-renderer-backgrounding");
    push_flag(&mut flags, "disable-backgrounding-occluded-windows");
    push_flag(&mut flags, "disable-extensions");
    push_flag(&mut flags, "disable-default-apps");
    push_flag(&mut flags, "disable-popup-blocking");
    push_flag(&mut flags, "disable-prompt-on-repost");
    push_flag(&mut flags, "disable-sync");
    push_flag(&mut flags, "disable-blink-features=AutomationControlled");
    push_flag(&mut flags, "no-default-browser-check");
    push_flag(&mut flags, "no-first-run");
    push_flag(&mut flags, "ignore-gpu-blocklist");
    push_flag(&mut flags, "disable-gpu-sandbox");
    match platform {
        Platform::MacOs => push_flag(&mut flags, "use-angle=metal"),
        Platform::Windows => push_flag(&mut flags, "use-angle=d3d11"),
        Platform::Linux => {
            push_flag(&mut flags, "use-angle=vulkan");
            push_flag(&mut flags, "disable-vulkan-surface");
            push_flag(&mut flags, "enable-features=Vulkan");
        },
        Platform::Other => {},
    }
    assert(texts(flags@) =~= common_flags() + platform_flags(platform));
    flags
}


/// Three characters and the length of a switch: together they tell every
/// switch of the lists above apart.
spec fn flag_key(f: Seq<char>) -> (nat, char, char, char) {
    (f.len(), f[0], f[8], f.last())
}

/// The place of a switch among all switches of the lists above (common
/// ones first, then the GPU-backend ones), `-1` for any other text.
spec fn flag_id(f: Seq<char>) -> int {
    if flag_key(f) == (17nat, 'u', '-', 'n') {
        0
    } else     if flag_key(f) == (26nat, 'e', 'e', 'l') {
        1
    } else     if flag_key(f) == (26nat, 'd', 't', 'n') {
        2
    } else     if flag_key(f) == (26nat, 'd', 't', 'g') {
        3
    } else     if flag_key(f) == (23nat, 'd', 'c', 'g') {
        4
    } else     if flag_key(f) == (30nat, 'd', 'i', 'c') {
        5
    } else     if flag_key(f) == (29nat, 'd', 'f', 'g') {
        6
    } else     if flag_key(f) == (27nat, 'f', 'v', '1') {
        7
    } else     if flag_key(f) == (24nat, 'f', 'l', 'b') {
        8
    } else     if flag_key(f) == (24nat, 'f', 'd', 'e') {
        9
    } else     if flag_key(f) == (20nat, 'd', 'w', 'y') {
        10
    } else     if flag_key(f) == (29nat, 'd', 's', 's') {
        11
    } else     if flag_key(f) == (28nat, 'a', 'l', 's') {
        12
    } else     if flag_key(f) == (25nat, 'i', 'e', 's') {
        13
    } else     if flag_key(f) == (21nat, 'd', 'd', 'e') {
        14
    } else     if flag_key(f) == (23nat, 'd', 'm', 's') {
        15
    } else     if flag_key(f) == (21nat, 'd', 'n', 's') {
        16
    } else     if flag_key(f) == (10nat, 'm', 'i', 'o') {
        17
    } else     if flag_key(f) == (40nat, 'a', '-', 'd') {
        18
    } else     if flag_key(f) == (29nat, 'd', 'b', 'g') {
        19
    } else     if flag_key(f) == (35nat, 'd', 'b', 'g') {
        20
    } else     if flag_key(f) == (30nat, 'd', 'r', 'g') {
        21
    } else     if flag_key(f) == (38nat, 'd', 'b', 's') {
        22
    } else     if flag_key(f) == (18nat, 'd', 'e', 's') {
        23
    } else     if flag_key(f) == (20nat, 'd', 'd', 's') {
        24
    } else     if flag_key(f) == (22nat, 'd', 'p', 'g') {
        25
    } else     if flag_key(f) == (24nat, 'd', 'p', 't') {
        26
    } else     if flag_key(f) == (12nat, 'd', 's', 'c') {
        27
    } else     if flag_key(f) == (43nat, 'd', 'b', 'd') {
        28
    } else     if flag_key(f) == (24nat, 'n', 'l', 'k') {
        29
    } else     if flag_key(f) == (12nat, 'n', '-', 'n') {
        30
    } else     if flag_key(f) == (20nat, 'i', 'p', 't') {
        31
    } else     if flag_key(f) == (19nat, 'd', 'g', 'x') {
        32
    } else     if flag_key(f) == (15nat, 'u', 'e', 'l') {
        33
    } else     if flag_key(f) == (15nat, 'u', 'e', '1') {
        34
    } else     if flag_key(f) == (16nat, 'u', 'e', 'n') {
        35
    } else     if flag_key(f) == (22nat, 'd', 'v', 'e') {
        36
    } else     if flag_key(f) == (22nat, 'e', 'e', 'n') {
        37
    } else {
        -1
    }
}

/// `key=value` switches split well: the switch is not empty and neither
/// starts nor ends with `=`, so splitting at its first `=` gives a
/// non-empty key and a non-empty value.
pub open spec fn splits_well(f: Seq<char>) -> bool {
    f.len() > 0 && f[0] != '=' && f.last() != '='
}

/// How many switches of `s` select the GPU backend (`use-angle=...`).
pub open spec fn angle_count(s: Seq<Seq<char>>) -> nat
    decreases s.len(),
{
    if s.len() == 0 {
        0
    } else {
        angle_count(s.drop_last()) + if has_prefix(s.last(), "use-angle="@) {
            1nat
        } else {
            0nat
        }
    }
}

spec fn flags_ok(s: Seq<Seq<char>>, top: int) -> bool {
    &&& s.no_duplicates()
    &&& forall|k: int| 0 <= k < s.len() ==> flag_id(#[trigger] s[k]) <= top
    &&& forall|k: int| 0 <= k < s.len() ==> splits_well(#[trigger] s[k])
}

proof fn lemma_flags_push(s: Seq<Seq<char>>, x: Seq<char>, top: int, angle: bool)
    requires
        flags_ok(s, top),
        flag_id(x) > top,
        splits_well(x),
        has_prefix(x, "use-angle="@) == angle,
    ensures
        flags_ok(s.push(x), flag_id(x)),
        angle_count(s.push(x)) == angle_count(s) + if angle {
            1nat
        } else {
            0nat
        },
{
    let t = s.push(x);
    assert(t.drop_last() =~= s);
    assert forall|i: int, j: int| 0 <= i < t.len() && 0 <= j < t.len() && i != j implies t[i] != t[j] by {
        if i < s.len() && j < s.len() {
            assert(t[i] == s[i] && t[j] == s[j]);
        } else if i < s.len() {
            assert(flag_id(s[i]) <= top);
        } else {
            assert(flag_id(s[j]) <= top);
        }
    }
    assert forall|k: int| 0 <= k < t.len() implies flag_id(#[trigger] t[k]) <= flag_id(x) && splits_well(t[k]) by {
        if k < s.len() {
            assert(t[k] == s[k]);
        }
    }
}

/// The deterministic switches of every platform are distinct, each splits
/// well at its first `=`, and a platform with a GPU backend gets exactly
/// one `use-angle=` switch (the others none).
#[verifier::rlimit(100)]
pub proof fn law_flags_well_formed(platform: Platform)
    ensures
        (common_flags() + platform_flags(platform)).no_duplicates(),
        forall|k: int|
            0 <= k < (common_flags() + platform_flags(platform)).len() ==> splits_well(
                #[trigger] (common_flags() + platform_flags(platform))[k],
            ),
        angle_count(common_flags() + platform_flags(platform)) == if platform is Other {
            0nat
        } else {
            1nat
        },
{
    reveal_strlit("use-angle=");
    reveal_strlit("use-mock-keychain");
    reveal_strlit("enable-begin-frame-control");
    reveal_strlit("disable-threaded-animation");
    reveal_strlit("disable-threaded-scrolling");
    reveal_strlit("disable-checker-imaging");
    reveal_strlit("disable-image-animation-resync");
    reveal_strlit("disable-features=PaintHolding");
    reveal_strlit("force-device-scale-factor=1");
    reveal_strlit("force-color-profile=srgb");
    reveal_strlit("font-render-hinting=none");
    reveal_strlit("disable-web-security");
    reveal_strlit("disable-site-isolation-trials");
    reveal_strlit("allow-file-access-from-files");
    reveal_strlit("ignore-certificate-errors");
    reveal_strlit("disable-dev-shm-usage");
    reveal_strlit("deny-permission-prompts");
    reveal_strlit("disable-notifications");
    reveal_strlit("mute-audio");
    reveal_strlit("autoplay-policy=no-user-gesture-required");
    reveal_strlit("disable-background-networking");
    reveal_strlit("disable-background-timer-throttling");
    reveal_strlit("disable-renderer-backgrounding");
    reveal_strlit("disable-backgrounding-occluded-windows");
    reveal_strlit("disable-extensions");
    reveal_strlit("disable-default-apps");
    reveal_strlit("disable-popup-blocking");
    reveal_strlit("disable-prompt-on-repost");
    reveal_strlit("disable-sync");
    reveal_strlit("disable-blink-features=AutomationControlled");
    reveal_strlit("no-default-browser-check");
    reveal_strlit("no-first-run");
    reveal_strlit("ignore-gpu-blocklist");
    reveal_strlit("disable-gpu-sandbox");
    reveal_strlit("use-angle=metal");
    reveal_strlit("use-angle=d3d11");
    reveal_strlit("use-angle=vulkan");
    reveal_strlit("disable-vulkan-surface");
    reveal_strlit("enable-features=Vulkan");
    let s0 = Seq::<Seq<char>>::empty();
    assert("use-mock-keychain"@.subrange(0, 10)[4] != "use-angle="@[4]);
    lemma_flags_push(s0, "use-mock-keychain"@, -1, false);
    let s1 = s0.push("use-mock-keychain"@);
    assert("enable-begin-frame-control"@.subrange(0, 10)[0] != "use-angle="@[0]);
    lemma_flags_push(s1, "enable-begin-frame-control"@, 0, false);
    let s2 = s1.push("enable-begin-frame-control"@);
    assert("disable-threaded-animation"@.subrange(0, 10)[0] != "use-angle="@[0]);
    lemma_flags_push(s2, "disable-threaded-animation"@, 1, false);
    let s3 = s2.push("disable-threaded-animation"@);
    assert("disable-threaded-scrolling"@.subrange(0, 10)[0] != "use-angle="@[0]);
    lemma_flags_push(s3, "disable-threaded-scrolling"@, 2, false);
    let s4 = s3.push("disable-threaded-scrolling"@);
    assert("disable-checker-imaging"@.subrange(0, 10)[0] != "use-angle="@[0]);
    lemma_flags_push(s4, "disable-checker-imaging"@, 3, false);
    let s5 = s4.push("disable-checker-imaging"@);
    assert("disable-image-animation-resync"@.subrange(0, 10)[0] != "use-angle="@[0]);
    lemma_flags_push(s5, "disable-image-animation-resync"@, 4, false);
    let s6 = s5.push("disable-image-animation-resync"@);
    assert("disable-features=PaintHolding"@.subrange(0, 10)[0] != "use-angle="@[0]);
    lemma_flags_push(s6, "disable-features=PaintHolding"@, 5, false);
    let s7 = s6.push("disable-features=PaintHolding"@);
    assert("force-device-scale-factor=1"@.subrange(0, 10)[0] != "use-angle="@[0]);
    lemma_flags_push(s7, "force-device-scale-factor=1"@, 6, false);
    let s8 = s7.push("force-device-scale-factor=1"@);
    assert("force-color-profile=srgb"@.subrange(0, 10)[0] != "use-angle="@[0]);
    lemma_flags_push(s8, "force-color-profile=srgb"@, 7, false);
    let s9 = s8.push("force-color-profile=srgb"@);
    assert("font-render-hinting=none"@.subrange(0, 10)[0] != "use-angle="@[0]);
    lemma_flags_push(s9, "font-render-hinting=none"@, 8, false);
    let s10 = s9.push("font-render-hinting=none"@);
    assert("disable-web-security"@.subrange(0, 10)[0] != "use-angle="@[0]);
    lemma_flags_push(s10, "disable-web-security"@, 9, false);
    let s11 = s10.push("disable-web-security"@);
    assert("disable-site-isolation-trials"@.subrange(0, 10)[0] != "use-angle="@[0]);
    lemma_flags_push(s11, "disable-site-isolation-trials"@, 10, false);
    let s12 = s11.push("disable-site-isolation-trials"@);
    assert("allow-file-access-from-files"@.subrange(0, 10)[0] != "use-angle="@[0]);
    lemma_flags_push(s12, "allow-file-access-from-files"@, 11, false);
    let s13 = s12.push("allow-file-access-from-files"@);
    assert("ignore-certificate-errors"@.subrange(0, 10)[0] != "use-angle="@[0]);
    lemma_flags_push(s13, "ignore-certificate-errors"@, 12, false);
    let s14 = s13.push("ignore-certificate-errors"@);
    assert("disable-dev-shm-usage"@.subrange(0, 10)[0] != "use-angle="@[0]);
    lemma_flags_push(s14, "disable-dev-shm-usage"@, 13, false);
    let s15 = s14.push("disable-dev-shm-usage"@);
    assert("deny-permission-prompts"@.subrange(0, 10)[0] != "use-angle="@[0]);
    lemma_flags_push(s15, "deny-permission-prompts"@, 14, false);
    let s16 = s15.push("deny-permission-prompts"@);
    assert("disable-notifications"@.subrange(0, 10)[0] != "use-angle="@[0]);
    lemma_flags_push(s16, "disable-notifications"@, 15, false);
    let s17 = s16.push("disable-notifications"@);
    assert("mute-audio"@.subrange(0, 10)[0] != "use-angle="@[0]);
    lemma_flags_push(s17, "mute-audio"@, 16, false);
    let s18 = s17.push("mute-audio"@);
    assert("autoplay-policy=no-user-gesture-required"@.subrange(0, 10)[0] != "use-angle="@[0]);
    lemma_flags_push(s18, "autoplay-policy=no-user-gesture-required"@, 17, false);
    let s19 = s18.push("autoplay-policy=no-user-gesture-required"@);
    assert("disable-background-networking"@.subrange(0, 10)[0] != "use-angle="@[0]);
    lemma_flags_push(s19, "disable-background-networking"@, 18, false);
    let s20 = s19.push("disable-background-networking"@);
    assert("disable-background-timer-throttling"@.subrange(0, 10)[0] != "use-angle="@[0]);
    lemma_flags_push(s20, "disable-background-timer-throttling"@, 19, false);
    let s21 = s20.push("disable-background-timer-throttling"@);
    assert("disable-renderer-backgrounding"@.subrange(0, 10)[0] != "use-angle="@[0]);
    lemma_flags_push(s21, "disable-renderer-backgrounding"@, 20, false);
    let s22 = s21.push("disable-renderer-backgrounding"@);
    assert("disable-backgrounding-occluded-windows"@.subrange(0, 10)[0] != "use-angle="@[0]);
    lemma_flags_push(s22, "disable-backgrounding-occluded-windows"@, 21, false);
    let s23 = s22.push("disable-backgrounding-occluded-windows"@);
    assert("disable-extensions"@.subrange(0, 10)[0] != "use-angle="@[0]);
    lemma_flags_push(s23, "disable-extensions"@, 22, false);
    let s24 = s23.push("disable-extensions"@);
    assert("disable-default-apps"@.subrange(0, 10)[0] != "use-angle="@[0]);
    lemma_flags_push(s24, "disable-default-apps"@, 23, false);
    let s25 = s24.push("disable-default-apps"@);
    assert("disable-popup-blocking"@.subrange(0, 10)[0] != "use-angle="@[0]);
    lemma_flags_push(s25, "disable-popup-blocking"@, 24, false);
    let s26 = s25.push("disable-popup-blocking"@);
    assert("disable-prompt-on-repost"@.subrange(0, 10)[0] != "use-angle="@[0]);
    lemma_flags_push(s26, "disable-prompt-on-repost"@, 25, false);
    let s27 = s26.push("disable-prompt-on-repost"@);
    assert("disable-sync"@.subrange(0, 10)[0] != "use-angle="@[0]);
    lemma_flags_push(s27, "disable-sync"@, 26, false);
    let s28 = s27.push("disable-sync"@);
    assert("disable-blink-features=AutomationControlled"@.subrange(0, 10)[0] != "use-angle="@[0]);
    lemma_flags_push(s28, "disable-blink-features=AutomationControlled"@, 27, false);
    let s29 = s28.push("disable-blink-features=AutomationControlled"@);
    assert("no-default-browser-check"@.subrange(0, 10)[0] != "use-angle="@[0]);
    lemma_flags_push(s29, "no-default-browser-check"@, 28, false);
    let s30 = s29.push("no-default-browser-check"@);
    assert("no-first-run"@.subrange(0, 10)[0] != "use-angle="@[0]);
    lemma_flags_push(s30, "no-first-run"@, 29, false);
    let s31 = s30.push("no-first-run"@);
    assert("ignore-gpu-blocklist"@.subrange(0, 10)[0] != "use-angle="@[0]);
    lemma_flags_push(s31, "ignore-gpu-blocklist"@, 30, false);
    let s32 = s31.push("ignore-gpu-blocklist"@);
    assert("disable-gpu-sandbox"@.subrange(0, 10)[0] != "use-angle="@[0]);
    lemma_flags_push(s32, "disable-gpu-sandbox"@, 31, false);
    let s33 = s32.push("disable-gpu-sandbox"@);
    assert(common_flags() =~= s33);
    match platform {
        Platform::MacOs => {
            assert("use-angle=metal"@.subrange(0, 10) =~= "use-angle="@);
            lemma_flags_push(s33, "use-angle=metal"@, 32, true);
            let p0 = s33.push("use-angle=metal"@);
            assert(common_flags() + platform_flags(platform) =~= p0);
        },
        Platform::Windows => {
            assert("use-angle=d3d11"@.subrange(0, 10) =~= "use-angle="@);
            lemma_flags_push(s33, "use-angle=d3d11"@, 32, true);
            let p0 = s33.push("use-angle=d3d11"@);
            assert(common_flags() + platform_flags(platform) =~= p0);
        },
        Platform::Linux => {
            assert("use-angle=vulkan"@.subrange(0, 10) =~= "use-angle="@);
            lemma_flags_push(s33, "use-angle=vulkan"@, 32, true);
            let p0 = s33.push("use-angle=vulkan"@);
            assert("disable-vulkan-surface"@.subrange(0, 10)[0] != "use-angle="@[0]);
            lemma_flags_push(p0, "disable-vulkan-surface"@, 35, false);
            let p1 = p0.push("disable-vulkan-surface"@);
            assert("enable-features=Vulkan"@.subrange(0, 10)[0] != "use-angle="@[0]);
            lemma_flags_push(p1, "enable-features=Vulkan"@, 36, false);
            let p2 = p1.push("enable-features=Vulkan"@);
            assert(common_flags() + platform_flags(platform) =~= p2);
        },
        Platform::Other => {
            assert(common_flags() + platform_flags(platform) =~= s33);
        },
    }
}

} // verus!
