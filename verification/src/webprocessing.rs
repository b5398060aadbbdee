//! Finding the newest server package: the download link on the download
//! page, the version that the link names, and whether it is newer than the
//! version installed.

use vstd::prelude::*;

use crate::foreign::{html_first_attribute, html_first_attribute_of, regex_captures, regex_captures_of};
use crate::text::{all_digits, decimal, digits_value, lemma_parse_decimal, parse_digits, parse_digits_i32};

verus! {

/// The download page of the Bedrock dedicated server.
pub const SERVER_URL: &'static str = "https://www.minecraft.net/en-us/download/server/bedrock";

/// Finds the version in a package link or file name.
pub const VERSION_PATTERN: &'static str = "bedrock-server-(\\d+\\.\\d+\\.\\d+)[\\.-]";

/// Splits a version into major, minor and patch numbers.
pub const VERSION_NUMBERS_PATTERN: &'static str = "(\\d+)\\.(\\d+)\\.(\\d+)";

/// The anchor of the Linux package on the download page.
pub const DOWNLOAD_LINK_SELECTOR: &'static str = "a[aria-label=\"Download Minecraft Dedicated Server software for Ubuntu (Linux)\"]";

/// The version assumed when none has been recorded.
pub const DEFAULT_VERSION: &'static str = "1.0.0";

/// Capture group `i` of a regex result, `None` when there was no match or the
/// group took no part in it.
pub open spec fn group_of(caps: Option<Seq<Option<Seq<char>>>>, i: int) -> Option<Seq<char>> {
    match caps {
        Some(groups) => if 0 <= i < groups.len() {
            groups[i]
        } else {
            None
        },
        None => None,
    }
}

/// The version that `VERSION_PATTERN` finds in `text`.
pub open spec fn version_in(text: Seq<char>) -> Option<Seq<char>> {
    group_of(regex_captures_of(VERSION_PATTERN@, text), 1)
}

/// Major, minor and patch numbers read from three capture groups.
pub open spec fn numbers_of(caps: Option<Seq<Option<Seq<char>>>>) -> Option<(int, int, int)> {
    match (group_of(caps, 1), group_of(caps, 2), group_of(caps, 3)) {
        (Some(a), Some(b), Some(c)) => match (parse_digits(a), parse_digits(b), parse_digits(c)) {
            (Some(x), Some(y), Some(z)) => Some((x, y, z)),
            _ => None,
        },
        _ => None,
    }
}

/// Major, minor and patch numbers of a version text.
pub open spec fn version_numbers(text: Seq<char>) -> Option<(int, int, int)> {
    numbers_of(regex_captures_of(VERSION_NUMBERS_PATTERN@, text))
}

/// `new` counts as newer than `current` when it is later in major, then
/// minor, then patch order.
pub open spec fn newer_than(new: (int, int, int), current: (int, int, int)) -> bool {
    new.0 > current.0 || (new.0 == current.0 && new.1 > current.1) || (new.0 == current.0
        && new.1 == current.1 && new.2 > current.2)
}

/// Whether version text `new` counts as newer than version text `current`.
pub open spec fn is_newer(current: Seq<char>, new: Seq<char>) -> bool {
    newer_than(version_numbers(new).unwrap(), version_numbers(current).unwrap())
}

/// The link that the download page gives for the Linux package.
pub open spec fn download_link_in(page: Seq<char>) -> Option<Seq<char>> {
    html_first_attribute_of(page, DOWNLOAD_LINK_SELECTOR@, "href"@)
}

/// The version in use, from what the version file held (`None` when it could
/// not be read).
pub open spec fn current_version_of(file: Option<Seq<char>>) -> Seq<char> {
    match file {
        Some(v) => v,
        None => DEFAULT_VERSION@,
    }
}

/// The file that a downloaded package of `version` is stored in.
pub open spec fn package_file_name_of(version: Seq<char>) -> Seq<char> {
    "bedrock-server-"@ + version + ".zip"@
}

/// Capture group `i` of a regex result.
pub fn capture_group(caps: &Option<Vec<Option<String>>>, i: usize) -> (res: Option<String>)
    ensures
        res.deep_view() == group_of(caps.deep_view(), i as int),
{
    match caps {
        Some(groups) => {
            if i < groups.len() {
                assert(groups.deep_view()[i as int] == groups[i as int].deep_view());
                match &groups[i] {
                    Some(s) => Some(s.clone()),
                    None => None,
                }
            } else {
                None
            }
        },
        None => None,
    }
}

/// The version (group 1) of a match of `VERSION_PATTERN`.
pub fn version_from_captures(caps: &Option<Vec<Option<String>>>) -> (res: Option<String>)
    ensures
        res.deep_view() == group_of(caps.deep_view(), 1),
{
    capture_group(caps, 1)
}

/// The version named in a link or path, such as `1.20.1` in
/// `bedrock-server-1.20.1.zip`.
pub fn get_version_from_string(link_or_path: &String) -> (res: String)
    requires
        version_in(link_or_path@) is Some,
    ensures
        res@ == version_in(link_or_path@).unwrap(),
{
    let caps = regex_captures(VERSION_PATTERN, link_or_path.as_str());
    let version = version_from_captures(&caps);
    match version {
        Some(v) => v,
        None => {
            assert(false);
            String::new()
        },
    }
}

/// The version named in `text`, `None` when `VERSION_PATTERN` finds none.
pub fn find_version(text: &String) -> (res: Option<String>)
    ensures
        res.deep_view() == version_in(text@),
{
    let caps = regex_captures(VERSION_PATTERN, text.as_str());
    if version_from_captures(&caps).is_some() {
        Some(get_version_from_string(text))
    } else {
        None
    }
}

/// The version of the server package behind `download_link`.
pub fn get_server_version(download_link: &String) -> (res: String)
    requires
        version_in(download_link@) is Some,
    ensures
        res@ == version_in(download_link@).unwrap(),
{
    get_version_from_string(download_link)
}

/// Major, minor and patch numbers from the three groups of a match of
/// `VERSION_NUMBERS_PATTERN`; `None` when a group is missing or is not a
/// number that fits an `i32`.
pub fn numbers_from_captures(caps: &Option<Vec<Option<String>>>) -> (res: Option<(i32, i32, i32)>)
    ensures
        match res {
            Some(t) => numbers_of(caps.deep_view()) == Some((t.0 as int, t.1 as int, t.2 as int)),
            None => numbers_of(caps.deep_view()) is None,
        },
{
    let a = capture_group(caps, 1);
    let b = capture_group(caps, 2);
    let c = capture_group(caps, 3);
    match (a, b, c) {
        (Some(a), Some(b), Some(c)) => {
            match (parse_digits_i32(a.as_str()), parse_digits_i32(b.as_str()), parse_digits_i32(c.as_str())) {
                (Some(x), Some(y), Some(z)) => Some((x, y, z)),
                _ => None,
            }
        },
        _ => None,
    }
}

/// Whether `new` counts as newer than `current`: it is later in major, then
/// minor, then patch order.
pub fn is_newer_numbers(current: (i32, i32, i32), new: (i32, i32, i32)) -> (res: bool)
    ensures
        res == newer_than(
            (new.0 as int, new.1 as int, new.2 as int),
            (current.0 as int, current.1 as int, current.2 as int),
        ),
{
    new.0 > current.0 || (new.0 == current.0 && new.1 > current.1) || (new.0 == current.0
        && new.1 == current.1 && new.2 > current.2)
}

/// Major, minor and patch numbers of a version text.
pub fn find_version_numbers(version: &String) -> (res: Option<(i32, i32, i32)>)
    ensures
        match res {
            Some(t) => version_numbers(version@) == Some((t.0 as int, t.1 as int, t.2 as int)),
            None => version_numbers(version@) is None,
        },
{
    let caps = regex_captures(VERSION_NUMBERS_PATTERN, version.as_str());
    numbers_from_captures(&caps)
}

/// Whether `new_version` counts as newer than `current_version`: it is later
/// in major, then minor, then patch order.
pub fn is_newer_version(current_version: &String, new_version: &String) -> (res: bool)
    requires
        version_numbers(current_version@) is Some,
        version_numbers(new_version@) is Some,
    ensures
        res == is_newer(current_version@, new_version@),
{
    let current = find_version_numbers(current_version);
    let new = find_version_numbers(new_version);
    match (current, new) {
        (Some(c), Some(n)) => is_newer_numbers(c, n),
        _ => {
            assert(false);
            false
        },
    }
}

/// The version in use: what the version file held, or `1.0.0` when it could
/// not be read.
pub fn get_current_version(version_file: Option<String>) -> (res: String)
    ensures
        res@ == current_version_of(version_file.deep_view()),
{
    match version_file {
        Some(version) => version,
        None => String::from_str(DEFAULT_VERSION),
    }
}

/// The file name a downloaded package of `server_version` is written to.
pub fn package_file_name(server_version: &String) -> (res: String)
    ensures
        res@ == package_file_name_of(server_version@),
{
    let mut name = String::from_str("bedrock-server-");
    name.append(server_version.as_str());
    name.append(".zip");
    name
}

/// The link to the Linux package on the download page.
pub fn get_download_link(server_page: &str) -> (res: String)
    requires
        download_link_in(server_page@) is Some,
    ensures
        res@ == download_link_in(server_page@).unwrap(),
{
    match html_first_attribute(server_page, DOWNLOAD_LINK_SELECTOR, "href") {
        Some(link) => link,
        None => {
            assert(false);
            String::new()
        },
    }
}

/// The link to the Linux package, `None` when the page has none.
pub fn find_download_link(server_page: &str) -> (res: Option<String>)
    ensures
        res.deep_view() == download_link_in(server_page@),
{
    if html_first_attribute(server_page, DOWNLOAD_LINK_SELECTOR, "href").is_some() {
        Some(get_download_link(server_page))
    } else {
        None
    }
}

/// Why no plan can be made from the download page and the version file.
#[derive(Debug, Clone, Copy, PartialEq, Eq, Structural)]
pub enum UpdateError {
    /// The page has no link to the Linux package.
    NoDownloadLink,
    /// The link names no version.
    NoServerVersion,
    /// The version in use or the server version is not major.minor.patch.
    UnreadableVersion,
}

/// What to do about the server package.
#[derive(Debug)]
pub enum UpdatePlan {
    /// The package offered is not newer than the one in use.
    Unchanged { server_version: String },
    /// Download `link` into `file_name`.
    Download { link: String, server_version: String, file_name: String },
}

/// The plan, its texts taken as character sequences.
pub enum UpdatePlanView {
    Unchanged { server_version: Seq<char> },
    Download { link: Seq<char>, server_version: Seq<char>, file_name: Seq<char> },
}

impl View for UpdatePlan {
    type V = UpdatePlanView;

    open spec fn view(&self) -> UpdatePlanView {
        match self {
            UpdatePlan::Unchanged { server_version } => UpdatePlanView::Unchanged {
                server_version: server_version@,
            },
            UpdatePlan::Download { link, server_version, file_name } => UpdatePlanView::Download {
                link: link@,
                server_version: server_version@,
                file_name: file_name@,
            },
        }
    }
}

/// The plan that the download page and the version file (`None` when it could
/// not be read) lead to.
pub open spec fn update_plan_of(page: Seq<char>, version_file: Option<Seq<char>>) -> Result<
    UpdatePlanView,
    UpdateError,
> {
    match download_link_in(page) {
        None => Err(UpdateError::NoDownloadLink),
        Some(link) => match version_in(link) {
            None => Err(UpdateError::NoServerVersion),
            Some(server_version) => {
                let current = current_version_of(version_file);
                if version_numbers(current) is None || version_numbers(server_version) is None {
                    Err(UpdateError::UnreadableVersion)
                } else if is_newer(current, server_version) {
                    Ok(
                        UpdatePlanView::Download {
                            link,
                            server_version,
                            file_name: package_file_name_of(server_version),
                        },
                    )
                } else {
                    Ok(UpdatePlanView::Unchanged { server_version })
                }
            },
        },
    }
}

/// Decides, from the download page and what the version file held, whether
/// to download the package offered and where to store it.
pub fn update_plan(server_page: &str, version_file: Option<String>) -> (res: Result<
    UpdatePlan,
    UpdateError,
>)
    ensures
        match res {
            Ok(plan) => update_plan_of(server_page@, version_file.deep_view()) == Ok::<
                UpdatePlanView,
                UpdateError,
            >(plan@),
            Err(e) => update_plan_of(server_page@, version_file.deep_view()) == Err::<
                UpdatePlanView,
                UpdateError,
            >(e),
        },
{
    let link = match find_download_link(server_page) {
        Some(link) => link,
        None => return Err(UpdateError::NoDownloadLink),
    };
    let server_version = match find_version(&link) {
        Some(_) => get_server_version(&link),
        None => return Err(UpdateError::NoServerVersion),
    };
    let current_version = get_current_version(version_file);
    if find_version_numbers(&current_version).is_none() || find_version_numbers(
        &server_version,
    ).is_none() {
        return Err(UpdateError::UnreadableVersion);
    }
    if is_newer_version(&current_version, &server_version) {
        let file_name = package_file_name(&server_version);
        Ok(UpdatePlan::Download { link, server_version, file_name })
    } else {
        Ok(UpdatePlan::Unchanged { server_version })
    }
}

/// A version never counts as newer than itself.
pub proof fn lemma_version_not_newer_than_itself(version: Seq<char>)
    requires
        version_numbers(version) is Some,
    ensures
        !is_newer(version, version),
{
}

/// Of two readable versions, exactly one is newer than the other, unless
/// their major, minor and patch numbers are the same.
pub proof fn lemma_version_order_total(a: Seq<char>, b: Seq<char>)
    requires
        version_numbers(a) is Some,
        version_numbers(b) is Some,
    ensures
        is_newer(a, b) ==> !is_newer(b, a) && version_numbers(a) != version_numbers(b),
        is_newer(b, a) ==> !is_newer(a, b) && version_numbers(a) != version_numbers(b),
        version_numbers(a) == version_numbers(b) ==> !is_newer(a, b) && !is_newer(b, a),
        is_newer(a, b) || is_newer(b, a) || version_numbers(a) == version_numbers(b),
{
}

/// Being newer carries over: a version newer than one that is newer than a
/// third is newer than the third.
pub proof fn lemma_newer_is_transitive(a: Seq<char>, b: Seq<char>, c: Seq<char>)
    requires
        version_numbers(a) is Some,
        version_numbers(b) is Some,
        version_numbers(c) is Some,
        is_newer(a, b),
        is_newer(b, c),
    ensures
        is_newer(a, c),
{
}

/// A version that is not later than the one in use (in major, then minor,
/// then patch order) does not count as newer, so the package in use is kept.
pub proof fn lemma_not_later_not_newer(current: Seq<char>, new: Seq<char>)
    requires
        version_numbers(current) is Some,
        version_numbers(new) is Some,
        ({
            let (a, b, c) = version_numbers(new).unwrap();
            let (x, y, z) = version_numbers(current).unwrap();
            a < x || (a == x && b < y) || (a == x && b == y && c <= z)
        }),
    ensures
        !is_newer(current, new),
{
}

/// Once the version file holds the version that the download page offers,
/// the plan is to leave the server package as it is.
pub proof fn lemma_installed_version_unchanged(page: Seq<char>, version: Seq<char>)
    requires
        download_link_in(page) is Some,
        version_in(download_link_in(page).unwrap()) == Some(version),
        version_numbers(version) is Some,
    ensures
        update_plan_of(page, Some(version)) == Ok::<UpdatePlanView, UpdateError>(
            UpdatePlanView::Unchanged { server_version: version },
        ),
{
}

/// The numbers of a version are exactly the decimal values of its three
/// groups: a group of digits up to `i32::MAX` is taken whole, and a version
/// written from numbers reads back as those numbers.
pub proof fn lemma_numbers_are_group_values(caps: Option<Seq<Option<Seq<char>>>>)
    ensures
        numbers_of(caps) matches Some((x, y, z)) ==> {
            &&& group_of(caps, 1) matches Some(a) && all_digits(a) && a.len() > 0 && x
                == digits_value(a)
            &&& group_of(caps, 2) matches Some(b) && all_digits(b) && b.len() > 0 && y
                == digits_value(b)
            &&& group_of(caps, 3) matches Some(c) && all_digits(c) && c.len() > 0 && z
                == digits_value(c)
        },
        numbers_of(caps) is None <==> !({
            &&& group_of(caps, 1) matches Some(a) && a.len() > 0 && all_digits(a)
                && digits_value(a) <= i32::MAX
            &&& group_of(caps, 2) matches Some(b) && b.len() > 0 && all_digits(b)
                && digits_value(b) <= i32::MAX
            &&& group_of(caps, 3) matches Some(c) && c.len() > 0 && all_digits(c)
                && digits_value(c) <= i32::MAX
        }),
{
}

/// Groups holding the decimal renderings of `x`, `y` and `z` give back the
/// numbers `x`, `y` and `z`, whatever their number of digits.
pub proof fn lemma_numbers_read_back(caps: Option<Seq<Option<Seq<char>>>>, x: nat, y: nat, z: nat)
    requires
        x <= i32::MAX,
        y <= i32::MAX,
        z <= i32::MAX,
        group_of(caps, 1) == Some(decimal(x)),
        group_of(caps, 2) == Some(decimal(y)),
        group_of(caps, 3) == Some(decimal(z)),
    ensures
        numbers_of(caps) == Some((x as int, y as int, z as int)),
{
    lemma_parse_decimal(x);
    lemma_parse_decimal(y);
    lemma_parse_decimal(z);
}

/// With a readable offered version and a readable version in use, the plan
/// downloads exactly when the offered version is later in major, then minor,
/// then patch order, and it then downloads the page's link into the file
/// named `bedrock-server-<version>.zip`; otherwise it keeps the package.
pub proof fn lemma_plan_downloads_exactly_later_versions(
    page: Seq<char>,
    version_file: Option<Seq<char>>,
)
    requires
        download_link_in(page) is Some,
        version_in(download_link_in(page).unwrap()) is Some,
        version_numbers(version_in(download_link_in(page).unwrap()).unwrap()) is Some,
        version_numbers(current_version_of(version_file)) is Some,
    ensures
        ({
            let link = download_link_in(page).unwrap();
            let offered = version_in(link).unwrap();
            let (a, b, c) = version_numbers(offered).unwrap();
            let (x, y, z) = version_numbers(current_version_of(version_file)).unwrap();
            let later = a > x || (a == x && b > y) || (a == x && b == y && c > z);
            &&& later ==> update_plan_of(page, version_file) == Ok::<UpdatePlanView, UpdateError>(
                UpdatePlanView::Download {
                    link,
                    server_version: offered,
                    file_name: "bedrock-server-"@ + offered + ".zip"@,
                },
            )
            &&& !later ==> update_plan_of(page, version_file) == Ok::<UpdatePlanView, UpdateError>(
                UpdatePlanView::Unchanged { server_version: offered },
            )
        }),
{
}

/// The package's file name is `bedrock-server-`, the whole version, `.zip`:
/// it has the version at offset 15, is 19 characters longer than it, and
/// different versions get different names.
pub proof fn lemma_package_file_name_holds_version(v: Seq<char>, w: Seq<char>)
    ensures
        package_file_name_of(v).len() == v.len() + 19,
        package_file_name_of(v).take(15) == "bedrock-server-"@,
        package_file_name_of(v).subrange(15, 15 + v.len() as int) == v,
        package_file_name_of(v).skip(15 + v.len() as int) == ".zip"@,
        package_file_name_of(v) == package_file_name_of(w) ==> v == w,
{
    reveal_strlit("bedrock-server-");
    reveal_strlit(".zip");
    let n = package_file_name_of(v);
    assert(n.take(15) =~= "bedrock-server-"@);
    assert(n.subrange(15, 15 + v.len() as int) =~= v);
    assert(n.skip(15 + v.len() as int) =~= ".zip"@);
    if n == package_file_name_of(w) {
        let m = package_file_name_of(w);
        assert(m.subrange(15, 15 + w.len() as int) =~= w);
        assert(v.len() == w.len());
        assert(v =~= w);
    }
}

/// A recorded version is used as it is, whatever it holds; with no record the
/// version in use is `1.0.0`.
pub proof fn lemma_recorded_version_used(recorded: Seq<char>)
    ensures
        current_version_of(Some(recorded)) == recorded,
        current_version_of(None) == seq!['1', '.', '0', '.', '0'],
{
    reveal_strlit("1.0.0");
    assert(DEFAULT_VERSION@ =~= seq!['1', '.', '0', '.', '0']);
}

/// No plan is made exactly when something it needs is missing, and the error
/// names the first thing missing: the page's link, then the version the link
/// names, then a readable version in use and offered.
pub proof fn lemma_plan_errors(page: Seq<char>, version_file: Option<Seq<char>>)
    ensures
        download_link_in(page) is None ==> update_plan_of(page, version_file) == Err::<
            UpdatePlanView,
            UpdateError,
        >(UpdateError::NoDownloadLink),
        download_link_in(page) matches Some(link) && version_in(link) is None
            ==> update_plan_of(page, version_file) == Err::<UpdatePlanView, UpdateError>(
            UpdateError::NoServerVersion,
        ),
        download_link_in(page) matches Some(link) && version_in(link) matches Some(offered) && (
        version_numbers(offered) is None || version_numbers(current_version_of(version_file)) is None)
            ==> update_plan_of(page, version_file) == Err::<UpdatePlanView, UpdateError>(
            UpdateError::UnreadableVersion,
        ),
        update_plan_of(page, version_file) is Ok ==> (download_link_in(page) matches Some(link)
            && version_in(link) matches Some(offered) && version_numbers(offered) is Some
            && version_numbers(current_version_of(version_file)) is Some),
{
}

} // verus!
