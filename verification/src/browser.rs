//! Which Chrome this tool runs, and where a downloaded one lives.
//!
//! The file system and the network are the caller's: what is decided here is
//! which candidate wins, which download fits this machine, and where its
//! files go.
use crate::config::{describe_source, StatedBrowserPath};
use crate::error::IherbError;
use crate::text::{chars_of, find, find_in, join_path, lemma_find_from, path_join, push_str,
    string_from, string_of, str_eq};
use vstd::prelude::*;

verus! {

/// The operating system a build runs on.
#[derive(Debug, Clone, Copy, PartialEq, Eq, Structural)]
pub enum TargetOs {
    MacOs,
    Linux,
    Windows,
    Other,
}

/// The processor architecture a build runs on.
#[derive(Debug, Clone, Copy, PartialEq, Eq, Structural)]
pub enum TargetArch {
    Aarch64,
    X86_64,
    Other,
}

/// The name Chrome for Testing gives the download for a machine.
pub open spec fn platform_name(os: TargetOs, arch: TargetArch) -> Seq<char> {
    match os {
        TargetOs::MacOs => if arch == TargetArch::Aarch64 {
            "mac-arm64"@
        } else {
            "mac-x64"@
        },
        TargetOs::Linux => "linux64"@,
        TargetOs::Windows => if arch == TargetArch::X86_64 {
            "win64"@
        } else {
            "win32"@
        },
        TargetOs::Other => "linux64"@,
    }
}

/// The Chrome for Testing platform this machine downloads.
pub fn get_platform(os: TargetOs, arch: TargetArch) -> (p: String)
    ensures
        p@ == platform_name(os, arch),
{
    match os {
        TargetOs::MacOs => if arch == TargetArch::Aarch64 {
            string_from("mac-arm64")
        } else {
            string_from("mac-x64")
        },
        TargetOs::Linux => string_from("linux64"),
        TargetOs::Windows => if arch == TargetArch::X86_64 {
            string_from("win64")
        } else {
            string_from("win32")
        },
        TargetOs::Other => string_from("linux64"),
    }
}

/// Where the downloaded browser's executable sits under the data directory.
pub open spec fn chrome_binary_path(data_dir: Seq<char>, os: TargetOs) -> Seq<char> {
    let chrome_dir = path_join(data_dir, "chrome"@);
    match os {
        TargetOs::MacOs => path_join(
            path_join(
                path_join(path_join(chrome_dir, "Google Chrome for Testing.app"@), "Contents"@),
                "MacOS"@,
            ),
            "Google Chrome for Testing"@,
        ),
        TargetOs::Windows => path_join(chrome_dir, "chrome.exe"@),
        _ => path_join(chrome_dir, "chrome"@),
    }
}

/// The executable of a Chrome for Testing downloaded under `data_dir`.
pub fn downloaded_chrome_path(data_dir: &str, os: TargetOs) -> (p: String)
    ensures
        p@ == chrome_binary_path(data_dir@, os),
{
    let chrome_dir = join_path(data_dir, "chrome");
    match os {
        TargetOs::MacOs => {
            let app = join_path(chrome_dir.as_str(), "Google Chrome for Testing.app");
            let contents = join_path(app.as_str(), "Contents");
            let macos = join_path(contents.as_str(), "MacOS");
            join_path(macos.as_str(), "Google Chrome for Testing")
        },
        TargetOs::Windows => join_path(chrome_dir.as_str(), "chrome.exe"),
        _ => join_path(chrome_dir.as_str(), "chrome"),
    }
}

/// Where a system-wide Chrome is looked for, in order of preference.
pub open spec fn system_candidates(os: TargetOs) -> Seq<Seq<char>> {
    match os {
        TargetOs::MacOs => seq![
            "/Applications/Google Chrome.app/Contents/MacOS/Google Chrome"@,
            "/Applications/Chromium.app/Contents/MacOS/Chromium"@,
            "/Applications/Google Chrome Canary.app/Contents/MacOS/Google Chrome Canary"@,
        ],
        TargetOs::Linux => seq![
            "/usr/bin/google-chrome"@,
            "/usr/bin/google-chrome-stable"@,
            "/usr/bin/chromium"@,
            "/usr/bin/chromium-browser"@,
            "/snap/bin/chromium"@,
        ],
        TargetOs::Windows => seq![
            "C:\\Program Files\\Google\\Chrome\\Application\\chrome.exe"@,
            "C:\\Program Files (x86)\\Google\\Chrome\\Application\\chrome.exe"@,
        ],
        TargetOs::Other => seq![],
    }
}

/// The places a system-wide Chrome is looked for on `os`, in order.
pub fn system_chrome_candidates(os: TargetOs) -> (v: Vec<String>)
    ensures
        v@.map_values(|s: String| s@) == system_candidates(os),
{
    let mut v: Vec<String> = Vec::new();
    match os {
        TargetOs::MacOs => {
            v.push(string_from("/Applications/Google Chrome.app/Contents/MacOS/Google Chrome"));
            v.push(string_from("/Applications/Chromium.app/Contents/MacOS/Chromium"));
            v.push(
                string_from(
                    "/Applications/Google Chrome Canary.app/Contents/MacOS/Google Chrome Canary",
                ),
            );
        },
        TargetOs::Linux => {
            v.push(string_from("/usr/bin/google-chrome"));
            v.push(string_from("/usr/bin/google-chrome-stable"));
            v.push(string_from("/usr/bin/chromium"));
            v.push(string_from("/usr/bin/chromium-browser"));
            v.push(string_from("/snap/bin/chromium"));
        },
        TargetOs::Windows => {
            v.push(string_from("C:\\Program Files\\Google\\Chrome\\Application\\chrome.exe"));
            v.push(string_from("C:\\Program Files (x86)\\Google\\Chrome\\Application\\chrome.exe"));
        },
        TargetOs::Other => {},
    }
    assert(v@.map_values(|s: String| s@) =~= system_candidates(os));
    v
}

/// The message for a stated browser path that names nothing.
pub open spec fn missing_browser_message(stated: StatedBrowserPath) -> Seq<char> {
    describe_source(stated.source) + " names a browser executable that does not exist: "@
        + stated.path@
        + ". A browser you name is the browser this tool runs; it will not silently use a different one. Correct the path, or remove it to let the tool find a browser itself."@
}

/// What the search for a browser settles on.
#[derive(Debug, Clone)]
pub enum BrowserChoice {
    /// Run the executable at this path.
    Use(String),
    /// Nothing usable was found: download Chrome for Testing.
    Download,
}

/// Which browser to run.
///
/// A path the caller stated binds: it is used when it exists, and when it
/// does not the run fails with `InvalidInput`, because the fault is in the
/// arguments and no other browser may stand in for the one named. The other
/// candidates were not stated, so each may fall through to the next: a
/// system-wide Chrome, then one downloaded earlier, then a fresh download.
pub fn choose_browser(
    stated: Option<&StatedBrowserPath>,
    stated_exists: bool,
    system: Option<String>,
    downloaded: String,
    downloaded_exists: bool,
) -> (r: Result<BrowserChoice, IherbError>)
    ensures
        match stated {
            Some(s) => if stated_exists {
                r matches Ok(BrowserChoice::Use(p)) && p@ == s.path@
            } else {
                r matches Err(IherbError::InvalidInput(m)) && m@ == missing_browser_message(*s)
            },
            None => match system {
                Some(p) => r matches Ok(BrowserChoice::Use(q)) && q@ == p@,
                None => if downloaded_exists {
                    r matches Ok(BrowserChoice::Use(q)) && q@ == downloaded@
                } else {
                    r matches Ok(BrowserChoice::Download)
                },
            },
        },
{
    if let Some(s) = stated {
        if stated_exists {
            return Ok(BrowserChoice::Use(string_from(s.path.as_str())));
        }
        let mut m = s.source.describe();
        push_str(&mut m, " names a browser executable that does not exist: ");
        push_str(&mut m, s.path.as_str());
        push_str(
            &mut m,
            ". A browser you name is the browser this tool runs; it will not silently use a different one. Correct the path, or remove it to let the tool find a browser itself.",
        );
        return Err(IherbError::InvalidInput(m));
    }
    match system {
        Some(p) => Ok(BrowserChoice::Use(p)),
        None => if downloaded_exists {
            Ok(BrowserChoice::Use(downloaded))
        } else {
            Ok(BrowserChoice::Download)
        },
    }
}

/// The path of an archive entry below the archive's top-level directory:
/// what follows the first `/`. Nothing for an entry with no `/`, or for the
/// top-level directory itself.
pub open spec fn below_top_dir(name: Seq<char>) -> Option<Seq<char>> {
    match find(name, "/"@) {
        Some(k) => if k + 1 < name.len() {
            Some(name.skip(k + 1))
        } else {
            None
        },
        None => None,
    }
}

/// Strip the top-level directory from an archive entry's name: the
/// Chrome for Testing archive holds everything under one directory named
/// after the platform.
pub fn strip_top_dir(name: &str) -> (r: Option<String>)
    ensures
        match below_top_dir(name@) {
            Some(p) => r matches Some(s) && s@ == p,
            None => r is None,
        },
{
    let v = chars_of(name);
    let slash = chars_of("/");
    proof {
        reveal_strlit("/");
    }
    match find_in(&v, &slash, 0) {
        Some(k) => {
            proof {
                lemma_find_from(v@, slash@, 0);
            }
            assert(k + 1 <= v.len());
            if k + 1 < v.len() {
                let rest = string_of(&v, k + 1, v.len());
                assert(rest@ =~= v@.skip(k + 1));
                Some(rest)
            } else {
                None
            }
        },
        None => None,
    }
}

/// The download URL listed for `platform`: that of the first download
/// whose platform it is.
pub open spec fn listed_url(platform: Seq<char>, downloads: Seq<(Option<Seq<char>>, Option<Seq<char>>)>) -> Option<Seq<char>>
    decreases downloads.len(),
{
    if downloads.len() == 0 {
        None
    } else if downloads[0].0 == Some(platform) {
        downloads[0].1
    } else {
        listed_url(platform, downloads.drop_first())
    }
}

/// A download entry's platform and URL as plain values.
pub open spec fn download_view(d: (Option<String>, Option<String>)) -> (Option<Seq<char>>, Option<Seq<char>>) {
    (crate::dom::opt_view(d.0), crate::dom::opt_view(d.1))
}

/// The URL of the Chrome download for `platform` among the published
/// downloads, each a platform name and a URL as the version index lists
/// them. The first entry for the platform decides; when it has no URL, or
/// no entry names the platform, the download cannot go ahead.
pub fn download_url_for(platform: &str, downloads: &Vec<(Option<String>, Option<String>)>) -> (r: Result<String, IherbError>)
    ensures
        match listed_url(platform@, downloads@.map_values(|d: (Option<String>, Option<String>)| download_view(d))) {
            Some(u) => r matches Ok(s) && s@ == u,
            None => r matches Err(IherbError::ChromeDownload(m)) && m@ == "No download found for platform: "@ + platform@,
        },
{
    let ghost dv = downloads@.map_values(|d: (Option<String>, Option<String>)| download_view(d));
    let mut i: usize = 0;
    assert(dv.skip(0) =~= dv);
    while i < downloads.len()
        invariant
            i <= downloads.len(),
            dv == downloads@.map_values(|d: (Option<String>, Option<String>)| download_view(d)),
            listed_url(platform@, dv.skip(i as int)) == listed_url(platform@, dv),
        decreases downloads.len() - i,
    {
        assert(dv.skip(i as int)[0] == dv[i as int]);
        assert(dv.skip(i as int).drop_first() =~= dv.skip(i + 1));
        let hit = match &downloads[i].0 {
            Some(p) => str_eq(p.as_str(), platform),
            None => false,
        };
        if hit {
            return match &downloads[i].1 {
                Some(u) => Ok(string_from(u.as_str())),
                None => {
                    let mut m = string_from("No download found for platform: ");
                    push_str(&mut m, platform);
                    Err(IherbError::ChromeDownload(m))
                },
            };
        }
        i = i + 1;
    }
    assert(dv.skip(i as int) =~= Seq::<(Option<Seq<char>>, Option<Seq<char>>)>::empty());
    let mut m = string_from("No download found for platform: ");
    push_str(&mut m, platform);
    Err(IherbError::ChromeDownload(m))
}

} // verus!
