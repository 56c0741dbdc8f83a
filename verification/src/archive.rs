//! Archive downloads: gallery archives (ZIP files) from E-Hentai and ExHentai.
//!
//! Pages are fetched and files written by the caller. What to ask for next, and
//! what to make of the answer, is decided here.

use crate::config::Config;
use crate::text;
use crate::web;
use vstd::prelude::*;
use vstd::utf8::encode_utf8;

verus! {

/// A link to the archiver, with its gallery, token and optional key.
pub const ARCHIVER_LINK: &'static str = r"archiver\.php\?gid=(\d+)&token=([a-f0-9]+)(?:&or=([a-z0-9]+))?";

/// Links that open the archiver.
pub const ARCHIVER_SELECTOR: &'static str = "a[onclick*='archiver.php']";

/// A ZIP file that the page goes to or links to.
pub const ZIP_LINK: &'static str = r#"(?:document\.location\s*=\s*["']|<a[^>]*href=["'])([^"']+\.zip[^"']*)"#;

/// A link into an archive of the H@H network.
pub const HAH_LINK: &'static str = r#"(https?://[^"'\s]+/archive/[^"'\s]+)"#;

/// The link of a page that asks to wait.
pub const CONTINUE_LINK: &'static str = r#"<a[^>]*href=["']([^"']+)["'][^>]*>Click here"#;

/// The file name of a `Content-Disposition` header.
pub const HEADER_FILENAME: &'static str = r#"filename[*]?=(?:UTF-8'')?["']?([^"';\n]+)"#;

/// Where a result page may name the archive, most telling first.
pub const LOCATION_PATTERN: &'static str = r#"document\.location\s*=\s*["']([^"']+\.zip[^"']*)"#;

pub const ANCHOR_PATTERN: &'static str = r#"<a[^>]*href=["']([^"']+\.zip[^"']*)"#;

pub const ARCHIVE_PATTERN: &'static str = r#"(https?://[^\s"'<>]+/archive/[^\s"'<>]+)"#;

pub const ZIP_PATTERN: &'static str = r#"(https?://[^\s"'<>]+\.zip[^\s"'<>]*)"#;

/// Seconds to wait before a link to a prepared archive is followed.
pub const PREPARATION_DELAY: u64 = 3;

#[derive(Debug, Clone)]
pub enum ArchiveError {
    Network(String),
    Parse(String),
    NotFound(String),
    AccessDenied,
    NotAvailable,
    InsufficientCredits,
    RateLimited,
    DownloadFailed(String),
    Io(String),
    Database(String),
}

impl ArchiveError {
    pub open spec fn message_text(&self) -> Seq<char> {
        match *self {
            ArchiveError::Network(s) => "Network error: "@ + s@,
            ArchiveError::Parse(s) => "Parse error: "@ + s@,
            ArchiveError::NotFound(s) => "Gallery not found: "@ + s@,
            ArchiveError::AccessDenied => "Access denied - login required"@,
            ArchiveError::NotAvailable => "Archive not available"@,
            ArchiveError::InsufficientCredits => "GP/Credits required for archive download"@,
            ArchiveError::RateLimited => "Rate limited - please wait"@,
            ArchiveError::DownloadFailed(s) => "Download failed: "@ + s@,
            ArchiveError::Io(s) => "IO error: "@ + s@,
            ArchiveError::Database(s) => "Database error: "@ + s@,
        }
    }

    /// The error in words.
    pub fn message(&self) -> (res: String)
        ensures
            res@ == self.message_text(),
    {
        match self {
            ArchiveError::Network(s) => "Network error: ".to_string().concat(s.as_str()),
            ArchiveError::Parse(s) => "Parse error: ".to_string().concat(s.as_str()),
            ArchiveError::NotFound(s) => "Gallery not found: ".to_string().concat(s.as_str()),
            ArchiveError::AccessDenied => "Access denied - login required".to_string(),
            ArchiveError::NotAvailable => "Archive not available".to_string(),
            ArchiveError::InsufficientCredits => {
                "GP/Credits required for archive download".to_string()
            },
            ArchiveError::RateLimited => "Rate limited - please wait".to_string(),
            ArchiveError::DownloadFailed(s) => "Download failed: ".to_string().concat(s.as_str()),
            ArchiveError::Io(s) => "IO error: ".to_string().concat(s.as_str()),
            ArchiveError::Database(s) => "Database error: ".to_string().concat(s.as_str()),
        }
    }

    pub open spec fn is_parse_error(&self, m: Seq<char>) -> bool {
        match *self {
            ArchiveError::Parse(s) => s@ == m,
            _ => false,
        }
    }

    pub open spec fn is_not_found(&self, m: Seq<char>) -> bool {
        match *self {
            ArchiveError::NotFound(s) => s@ == m,
            _ => false,
        }
    }

    pub open spec fn is_download_failure(&self, m: Seq<char>) -> bool {
        match *self {
            ArchiveError::DownloadFailed(s) => s@ == m,
            _ => false,
        }
    }
}

// ---------------------------------------------------------------------------
// Resolutions
// ---------------------------------------------------------------------------

/// Archive resolution options.
#[derive(Debug, Clone, Copy, PartialEq, Eq, Structural)]
pub enum ArchiveResolution {
    /// Original resolution (highest quality).
    Original,
    /// 2400px max dimension.
    Res2400,
    /// 1600px max dimension.
    Res1600,
    /// 1280px max dimension.
    Res1280,
    /// 980px max dimension.
    Res980,
    /// 780px max dimension.
    Res780,
}

impl Default for ArchiveResolution {
    fn default() -> (r: Self)
        ensures
            r == ArchiveResolution::Original,
    {
        ArchiveResolution::Original
    }
}

impl ArchiveResolution {
    pub open spec fn code(&self) -> Seq<char> {
        match *self {
            ArchiveResolution::Original => "org"@,
            ArchiveResolution::Res2400 => "2400"@,
            ArchiveResolution::Res1600 => "1600"@,
            ArchiveResolution::Res1280 => "1280"@,
            ArchiveResolution::Res980 => "980"@,
            ArchiveResolution::Res780 => "780"@,
        }
    }

    /// The resolution that a text names, in any case of its letters.
    pub open spec fn named(s: Seq<char>) -> Option<ArchiveResolution> {
        let lower = text::lowercase(s);
        if lower == "org"@ || lower == "original"@ {
            Some(ArchiveResolution::Original)
        } else if lower == "2400"@ {
            Some(ArchiveResolution::Res2400)
        } else if lower == "1600"@ {
            Some(ArchiveResolution::Res1600)
        } else if lower == "1280"@ {
            Some(ArchiveResolution::Res1280)
        } else if lower == "980"@ {
            Some(ArchiveResolution::Res980)
        } else if lower == "780"@ {
            Some(ArchiveResolution::Res780)
        } else {
            None
        }
    }

    pub fn as_str(&self) -> (r: &'static str)
        ensures
            r@ == self.code(),
    {
        match self {
            ArchiveResolution::Original => "org",
            ArchiveResolution::Res2400 => "2400",
            ArchiveResolution::Res1600 => "1600",
            ArchiveResolution::Res1280 => "1280",
            ArchiveResolution::Res980 => "980",
            ArchiveResolution::Res780 => "780",
        }
    }

    pub fn from_str(s: &str) -> (r: Option<Self>)
        ensures
            r == ArchiveResolution::named(s@),
    {
        let lower = s.to_lowercase();
        let name = lower.as_str();
        if text::same(name, "org") || text::same(name, "original") {
            Some(ArchiveResolution::Original)
        } else if text::same(name, "2400") {
            Some(ArchiveResolution::Res2400)
        } else if text::same(name, "1600") {
            Some(ArchiveResolution::Res1600)
        } else if text::same(name, "1280") {
            Some(ArchiveResolution::Res1280)
        } else if text::same(name, "980") {
            Some(ArchiveResolution::Res980)
        } else if text::same(name, "780") {
            Some(ArchiveResolution::Res780)
        } else {
            None
        }
    }

    /// What the archiver's form is told: the original or a resampled archive, and the
    /// resolution by its own name.
    pub open spec fn form_type(&self) -> (Seq<char>, Seq<char>, Seq<char>) {
        if *self == ArchiveResolution::Original {
            ("org"@, "Download Original Archive"@, self.code())
        } else {
            ("res"@, "Download Resample Archive"@, self.code())
        }
    }

    /// The `dltype`, `dlcheck` and `xres` fields of the archiver's form.
    pub fn form_fields(&self) -> (r: (&'static str, &'static str, &'static str))
        ensures
            (r.0@, r.1@, r.2@) == self.form_type(),
    {
        match self {
            ArchiveResolution::Original => ("org", "Download Original Archive", self.as_str()),
            _ => ("res", "Download Resample Archive", self.as_str()),
        }
    }
}

/// Each resolution can be asked for: the form names it, and two different resolutions
/// give different forms.
pub proof fn law_forms_name_the_resolution(a: ArchiveResolution, b: ArchiveResolution)
    ensures
        a.form_type().2 == a.code(),
        a != b ==> a.form_type().2 != b.form_type().2,
        a.form_type() == b.form_type() <==> a == b,
        a.form_type().0 == "org"@ <==> a == ArchiveResolution::Original,
{
    law_resolution_reads_back(a);
    law_resolution_reads_back(b);
    reveal_strlit("org");
    reveal_strlit("res");
    assert("org"@[0] != "res"@[0]);
}

/// A resolution is read back from its own name.
pub proof fn law_resolution_reads_back(r: ArchiveResolution)
    ensures
        ArchiveResolution::named(r.code()) == Some(r),
{
    reveal_strlit("org");
    reveal_strlit("original");
    reveal_strlit("2400");
    reveal_strlit("1600");
    reveal_strlit("1280");
    reveal_strlit("980");
    reveal_strlit("780");
    let lower = text::lowercase(r.code());
    assert(lower =~= r.code());
    assert("2400"@[0] == '2' && "1600"@[1] == '6' && "1280"@[1] == '2' && "980"@[0] == '9'
        && "780"@[0] == '7');
    assert("1600"@[0] == '1' && "1280"@[0] == '1' && "org"@[0] == 'o' && "original"@[0] == 'o');
}

// ---------------------------------------------------------------------------
// Requests and their status
// ---------------------------------------------------------------------------

/// Archive download request.
#[derive(Debug, Clone)]
pub struct ArchiveRequest {
    pub gallery_id: String,
    pub gallery_token: String,
    pub resolution: ArchiveResolution,
    /// Original or resample token, if known.
    pub or_token: Option<String>,
}

/// Archive download status.
#[derive(Debug, Clone)]
pub struct ArchiveStatus {
    pub gallery_id: String,
    pub gallery_token: String,
    pub title: Option<String>,
    pub status: String,
    pub resolution: String,
    pub file_size: i64,
    pub downloaded_bytes: i64,
    pub file_path: Option<String>,
    pub error: Option<String>,
    pub created_at: i64,
    pub updated_at: i64,
}

/// Archive information from a gallery page.
#[derive(Debug, Clone)]
pub struct ArchiveInfo {
    pub archiver_key: String,
    pub or_token: Option<String>,
    pub available_resolutions: Vec<ArchiveResolution>,
    pub estimated_size: Option<u64>,
    pub gp_cost: Option<u32>,
}

/// The site that galleries are read from.
pub open spec fn site(exhentai: bool) -> Seq<char> {
    if exhentai {
        "https://exhentai.org"@
    } else {
        "https://e-hentai.org"@
    }
}

pub fn site_of(exhentai: bool) -> (r: &'static str)
    ensures
        r@ == site(exhentai),
{
    if exhentai {
        "https://exhentai.org"
    } else {
        "https://e-hentai.org"
    }
}

/// The page of a gallery.
pub open spec fn gallery_page(base: Seq<char>, id: Seq<char>, token: Seq<char>) -> Seq<char> {
    base + "/g/"@ + id + "/"@ + token + "/"@
}

pub fn gallery_page_url(base: &str, id: &str, token: &str) -> (r: String)
    ensures
        r@ == gallery_page(base@, id@, token@),
{
    let mut url = base.to_string();
    url.append("/g/");
    url.append(id);
    url.append("/");
    url.append(token);
    url.append("/");
    url
}

/// The archiver's page for a gallery.
pub open spec fn archiver_page(
    base: Seq<char>,
    id: Seq<char>,
    token: Seq<char>,
    or: Option<Seq<char>>,
) -> Seq<char> {
    let plain = base + "/archiver.php?gid="@ + id + "&token="@ + token;
    match or {
        Some(key) => plain + "&or="@ + key,
        None => plain,
    }
}

pub fn archiver_page_url(base: &str, id: &str, token: &str, or: &Option<String>) -> (r: String)
    ensures
        r@ == archiver_page(base@, id@, token@, web::optional_text(*or)),
{
    let mut url = base.to_string();
    url.append("/archiver.php?gid=");
    url.append(id);
    url.append("&token=");
    url.append(token);
    if let Some(key) = or {
        url.append("&or=");
        url.append(key.as_str());
    }
    url
}

/// A link that may lack its scheme, or its site.
pub open spec fn absolute(url: Seq<char>, base: Seq<char>) -> Option<Seq<char>> {
    if text::starts_with(url, "//"@) {
        Some("https:"@ + url)
    } else if text::starts_with(url, "/"@) {
        Some(base + url)
    } else if text::starts_with(url, "http"@) {
        Some(url)
    } else {
        None
    }
}

fn absolute_url(url: &str, base: &str) -> (r: Option<String>)
    ensures
        web::optional_text(r) == absolute(url@, base@),
{
    if text::has_prefix(url, "//") {
        Some("https:".to_string().concat(url))
    } else if text::has_prefix(url, "/") {
        Some(base.to_string().concat(url))
    } else if text::has_prefix(url, "http") {
        Some(url.to_string())
    } else {
        None
    }
}

// ---------------------------------------------------------------------------
// Gallery addresses
// ---------------------------------------------------------------------------

/// The gallery and the token of a match of the gallery pattern.
pub open spec fn gallery_of(groups: Option<Seq<Option<Seq<char>>>>) -> Option<
    (Seq<char>, Seq<char>),
> {
    match (web::captured(groups, 1), web::captured(groups, 2)) {
        (Some(id), Some(token)) => Some((id, token)),
        _ => None,
    }
}

pub open spec fn pair_views(o: Option<(String, String)>) -> Option<(Seq<char>, Seq<char>)> {
    match o {
        Some((a, b)) => Some((a@, b@)),
        None => None,
    }
}

/// The gallery and the token of a match of the gallery pattern.
pub fn gallery_from(groups: &Option<Vec<Option<String>>>) -> (r: Option<(String, String)>)
    ensures
        pair_views(r) == gallery_of(web::optional_list(*groups)),
{
    match (web::captured_group(groups, 1), web::captured_group(groups, 2)) {
        (Some(id), Some(token)) => Some((id, token)),
        _ => None,
    }
}

// ---------------------------------------------------------------------------
// Reading the pages
// ---------------------------------------------------------------------------

/// What the archiver's link on a gallery page leads to: gallery, token and key.
/// What the link does not say is taken from the request.
pub open spec fn linked_archiver(
    link: Seq<Option<Seq<char>>>,
    id: Seq<char>,
    token: Seq<char>,
) -> (Seq<char>, Seq<char>, Option<Seq<char>>) {
    (
        match web::group_of(link, 1) {
            Some(s) => s,
            None => id,
        },
        match web::group_of(link, 2) {
            Some(s) => s,
            None => token,
        },
        web::group_of(link, 3),
    )
}

fn linked(link: &Vec<Option<String>>, id: &str, token: &str) -> (r: (
    String,
    String,
    Option<String>,
))
    ensures
        (r.0@, r.1@, web::optional_text(r.2)) == linked_archiver(
            web::optional_texts(link@),
            id@,
            token@,
        ),
{
    let gid = match web::group(link, 1) {
        Some(s) => s,
        None => id.to_string(),
    };
    let key = match web::group(link, 2) {
        Some(s) => s,
        None => token.to_string(),
    };
    (gid, key, web::group(link, 3))
}

/// All resolutions, the largest first.
pub open spec fn all_resolutions() -> Seq<ArchiveResolution> {
    seq![
        ArchiveResolution::Original,
        ArchiveResolution::Res2400,
        ArchiveResolution::Res1600,
        ArchiveResolution::Res1280,
        ArchiveResolution::Res980,
        ArchiveResolution::Res780,
    ]
}

impl ArchiveInfo {
    /// What a link to the archiver says.
    pub open spec fn says(
        &self,
        link: Seq<Option<Seq<char>>>,
        id: Seq<char>,
        token: Seq<char>,
    ) -> bool {
        let (gid, key, or) = linked_archiver(link, id, token);
        &&& self.archiver_key@ == "gid="@ + gid + "&token="@ + key
        &&& web::optional_text(self.or_token) == or
        &&& self.available_resolutions@ == all_resolutions()
        &&& self.estimated_size is None
        &&& self.gp_cost is None
    }
}

/// The first of the attributes that are picked from a page.
pub open spec fn first_attribute(picked: Option<Seq<Option<Seq<char>>>>) -> Option<Seq<char>> {
    match picked {
        Some(attributes) => if attributes.len() > 0 {
            attributes[0]
        } else {
            None
        },
        None => None,
    }
}

pub(crate) fn first_picked(picked: &Option<Vec<Option<String>>>) -> (r: Option<String>)
    ensures
        web::optional_text(r) == first_attribute(web::optional_list(*picked)),
{
    match picked {
        Some(attributes) => if attributes.len() > 0 {
            match &attributes[0] {
                Some(s) => Some(s.clone()),
                None => None,
            }
        } else {
            None
        },
        None => None,
    }
}

/// The first form of the archiver's page that leads on.
pub open spec fn form_action(actions: Seq<Option<Seq<char>>>) -> Option<Seq<char>>
    decreases actions.len(),
{
    if actions.len() == 0 {
        None
    } else {
        match actions.first() {
            Some(action) => if text::contains(action, "archiver.php"@) || text::contains(
                action,
                "?start="@,
            ) {
                Some(action)
            } else {
                form_action(actions.drop_first())
            },
            None => form_action(actions.drop_first()),
        }
    }
}

/// The first form that leads on, of those whose actions are given.
pub fn form_action_of(actions: &Vec<Option<String>>) -> (r: Option<String>)
    ensures
        web::optional_text(r) == form_action(web::optional_texts(actions@)),
{
    let ghost all = web::optional_texts(actions@);
    let mut i: usize = 0;
    proof {
        assert(all.skip(0) =~= all);
    }
    while i < actions.len()
        invariant
            i <= actions.len(),
            all == web::optional_texts(actions@),
            form_action(all) == form_action(all.skip(i as int)),
        decreases actions.len() - i,
    {
        proof {
            assert(all.skip(i as int).drop_first() =~= all.skip(i + 1));
            assert(all.skip(i as int).first() == web::optional_text(actions@[i as int]));
        }
        if let Some(action) = &actions[i] {
            if text::has_substring(action.as_str(), "archiver.php") || text::has_substring(
                action.as_str(),
                "?start=",
            ) {
                return Some(action.clone());
            }
        }
        i = i + 1;
    }
    None
}

/// The first of the links found that can be made absolute.
pub open spec fn first_absolute(found: Seq<Option<Seq<char>>>, base: Seq<char>) -> Option<Seq<char>>
    decreases found.len(),
{
    if found.len() == 0 {
        None
    } else {
        match found.first() {
            Some(url) => if absolute(url, base) is Some {
                absolute(url, base)
            } else {
                first_absolute(found.drop_first(), base)
            },
            None => first_absolute(found.drop_first(), base),
        }
    }
}

/// Why a page that was to name the archive does not.
pub open spec fn no_url_text(html: Seq<char>) -> Seq<char> {
    if text::contains(html, "Preparing"@) || text::contains(html, "Please wait"@) {
        "Archive is being prepared, retry later"@
    } else {
        "Could not find download URL"@
    }
}

/// The archive's address, from what each pattern found on the page.
pub fn choose_download_url(found: &Vec<Option<String>>, html: &str, base_url: &str) -> (r: Result<
    String,
    String,
>)
    ensures
        match r {
            Ok(url) => first_absolute(web::optional_texts(found@), base_url@) == Some(url@),
            Err(m) => {
                &&& first_absolute(web::optional_texts(found@), base_url@) is None
                &&& m@ == no_url_text(html@)
            },
        },
{
    let ghost all = web::optional_texts(found@);
    let mut i: usize = 0;
    proof {
        assert(all.skip(0) =~= all);
    }
    while i < found.len()
        invariant
            i <= found.len(),
            all == web::optional_texts(found@),
            first_absolute(all, base_url@) == first_absolute(all.skip(i as int), base_url@),
        decreases found.len() - i,
    {
        proof {
            assert(all.skip(i as int).drop_first() =~= all.skip(i + 1));
            assert(all.skip(i as int).first() == web::optional_text(found@[i as int]));
        }
        if let Some(url) = &found[i] {
            if let Some(full) = absolute_url(url.as_str(), base_url) {
                return Ok(full);
            }
        }
        i = i + 1;
    }
    if text::has_substring(html, "Preparing") || text::has_substring(html, "Please wait") {
        Err("Archive is being prepared, retry later".to_string())
    } else {
        Err("Could not find download URL".to_string())
    }
}

/// What the patterns find on a result page, in the order they are tried.
pub open spec fn found_links(html: Seq<char>) -> Seq<Option<Seq<char>>> {
    seq![
        web::captured(web::regex_groups(LOCATION_PATTERN@, html), 1),
        web::captured(web::regex_groups(ANCHOR_PATTERN@, html), 1),
        web::captured(web::regex_groups(ARCHIVE_PATTERN@, html), 1),
        web::captured(web::regex_groups(ZIP_PATTERN@, html), 1),
    ]
}

// ---------------------------------------------------------------------------
// File names
// ---------------------------------------------------------------------------

/// Characters that a file name keeps.
pub open spec fn is_safe(c: char, spaces: bool) -> bool {
    text::is_alphanumeric(c) || c == '.' || c == '_' || c == '-' || (spaces && c == ' ')
}

/// A file name with all other characters replaced.
pub open spec fn safe_name(name: Seq<char>, spaces: bool) -> Seq<char> {
    name.map_values(
        |c: char|
            if is_safe(c, spaces) {
                c
            } else {
                '_'
            },
    )
}

/// Replaces what does not belong into a file name; `spaces` may stay or not.
pub fn safe_filename(name: &str, spaces: bool) -> (r: String)
    ensures
        r@ == safe_name(name@, spaces),
{
    let v = text::chars_of(name);
    let mut r: String = String::new();
    let mut i: usize = 0;
    while i < v.len()
        invariant
            i <= v.len(),
            v@ == name@,
            r@ == safe_name(name@, spaces).take(i as int),
        decreases v.len() - i,
    {
        let c = v[i];
        if c.is_alphanumeric() || c == '.' || c == '_' || c == '-' || (spaces && c == ' ') {
            r.push(c);
        } else {
            r.push('_');
        }
        i = i + 1;
        proof {
            assert(r@ =~= safe_name(name@, spaces).take(i as int));
        }
    }
    proof {
        assert(safe_name(name@, spaces).take(i as int) =~= safe_name(name@, spaces));
    }
    r
}

/// The name that a server gave, or else one made of gallery and resolution.
pub open spec fn archive_name(
    given: Option<Seq<char>>,
    id: Seq<char>,
    resolution: ArchiveResolution,
) -> Seq<char> {
    match given {
        Some(name) => name,
        None => id + "_"@ + resolution.code() + ".zip"@,
    }
}

/// The file name that a `Content-Disposition` header gives.
pub open spec fn header_name(header: Option<Seq<char>>) -> Option<Seq<char>> {
    match header {
        Some(h) => web::captured(web::regex_groups(HEADER_FILENAME@, h), 1),
        None => None,
    }
}

/// The name that a server gave, or else one made of gallery and resolution.
pub fn name_or_default(given: Option<String>, gallery_id: &str, resolution: ArchiveResolution)
    -> (r: String)
    ensures
        r@ == archive_name(web::optional_text(given), gallery_id@, resolution),
{
    match given {
        Some(name) => name,
        None => {
            let mut name = gallery_id.to_string();
            name.append("_");
            name.append(resolution.as_str());
            name.append(".zip");
            name
        },
    }
}

/// The file name for an archive whose reply had this `Content-Disposition`.
pub fn archive_filename(header: &Option<String>, gallery_id: &str, resolution: ArchiveResolution)
    -> (r: String)
    ensures
        r@ == archive_name(header_name(web::optional_text(*header)), gallery_id@, resolution),
{
    let given = match header {
        Some(h) => {
            let groups = web::regex_captures(HEADER_FILENAME, h.as_str());
            web::captured_group(&groups, 1)
        },
        None => None,
    };
    name_or_default(given, gallery_id, resolution)
}

/// A safe name holds no path separator, and as many characters as were given.
pub proof fn law_safe_names_are_plain(name: Seq<char>, spaces: bool)
    ensures
        safe_name(name, spaces).len() == name.len(),
        forall|i: int|
            0 <= i < name.len() ==> is_safe(#[trigger] safe_name(name, spaces)[i], spaces) && {
                let c = safe_name(name, spaces)[i];
                c != '/' && c != '\\' && c != '"'
            },
        safe_name(safe_name(name, spaces), spaces) == safe_name(name, spaces),
{
    assert(safe_name(safe_name(name, spaces), spaces) =~= safe_name(name, spaces));
}

// ---------------------------------------------------------------------------
// The downloader
// ---------------------------------------------------------------------------

/// Asks the archiver for archives.
pub struct ArchiveDownloader {
    pub config: Config,
    pub downloads_dir: String,
}

/// What to make of the page that answers the archiver's form.
pub enum ArchiveStep {
    /// The archive can be had here.
    Download(String),
    /// Wait for `PREPARATION_DELAY` and ask here.
    Continue(String),
}

/// The form that asks for an archive.
pub struct ArchiverForm {
    pub url: String,
    pub dltype: String,
    pub dlcheck: String,
    pub xres: String,
}

impl ArchiverForm {
    /// The form asks for this resolution.
    pub open spec fn asks_for(&self, resolution: ArchiveResolution) -> bool {
        (self.dltype@, self.dlcheck@, self.xres@) == resolution.form_type()
    }

    /// The form that asks for a resolution.
    pub fn new(url: String, resolution: ArchiveResolution) -> (r: Self)
        ensures
            r.url == url,
            r.asks_for(resolution),
    {
        let (dltype, dlcheck, xres) = resolution.form_fields();
        ArchiverForm {
            url,
            dltype: dltype.to_string(),
            dlcheck: dlcheck.to_string(),
            xres: xres.to_string(),
        }
    }

    /// The fields of the form, with their names.
    pub fn fields(&self) -> (r: Vec<(&'static str, &str)>)
        ensures
            r@.len() == 3,
            (r@[0].0@, r@[0].1@) == ("dltype"@, self.dltype@),
            (r@[1].0@, r@[1].1@) == ("dlcheck"@, self.dlcheck@),
            (r@[2].0@, r@[2].1@) == ("xres"@, self.xres@),
    {
        let mut r: Vec<(&'static str, &str)> = Vec::new();
        r.push(("dltype", self.dltype.as_str()));
        r.push(("dlcheck", self.dlcheck.as_str()));
        r.push(("xres", self.xres.as_str()));
        r
    }
}

/// What a result page leads to, from what the patterns found on it: a ZIP file,
/// an archive of the H@H network, or a page to go on with.
pub open spec fn result_of(
    html: Seq<char>,
    base: Seq<char>,
    zip: Option<Seq<char>>,
    hah: Option<Seq<char>>,
    next: Option<Seq<char>>,
) -> Result<(bool, Seq<char>), Seq<char>> {
    if zip is Some && absolute(zip->0, base) is Some {
        Ok((true, absolute(zip->0, base)->0))
    } else if hah is Some {
        Ok((true, hah->0))
    } else if text::contains(html, "Preparing your archive"@) || text::contains(
        html,
        "Please wait"@,
    ) {
        if next is Some {
            Ok((false, next->0))
        } else {
            Err("Archive is being prepared, try again later"@)
        }
    } else {
        Err("Could not find download URL"@)
    }
}

pub open spec fn step_matches(
    r: Result<ArchiveStep, ArchiveError>,
    expected: Result<(bool, Seq<char>), Seq<char>>,
) -> bool {
    match (r, expected) {
        (Ok(ArchiveStep::Download(url)), Ok((direct, text))) => direct && url@ == text,
        (Ok(ArchiveStep::Continue(url)), Ok((direct, text))) => !direct && url@ == text,
        (Err(e), Err(m)) => e.is_parse_error(m),
        _ => false,
    }
}

/// What a result page leads to, from what the patterns found on it.
pub fn choose_step(
    html: &str,
    base_url: &str,
    zip: Option<String>,
    hah: Option<String>,
    next: Option<String>,
) -> (r: Result<ArchiveStep, ArchiveError>)
    ensures
        step_matches(
            r,
            result_of(
                html@,
                base_url@,
                web::optional_text(zip),
                web::optional_text(hah),
                web::optional_text(next),
            ),
        ),
{
    if let Some(url) = zip {
        if let Some(full) = absolute_url(url.as_str(), base_url) {
            return Ok(ArchiveStep::Download(full));
        }
    }
    if let Some(url) = hah {
        return Ok(ArchiveStep::Download(url));
    }
    if text::has_substring(html, "Preparing your archive") || text::has_substring(
        html,
        "Please wait",
    ) {
        return match next {
            Some(url) => Ok(ArchiveStep::Continue(url)),
            None => Err(
                ArchiveError::Parse("Archive is being prepared, try again later".to_string()),
            ),
        };
    }
    Err(ArchiveError::Parse("Could not find download URL".to_string()))
}

/// What a page that was waited for leads to.
pub open spec fn continued_url(zip: Option<Seq<char>>) -> Option<Seq<char>> {
    match zip {
        Some(url) => if text::starts_with(url, "http"@) {
            Some(url)
        } else {
            None
        },
        None => None,
    }
}

/// What a page that was waited for leads to, from the ZIP file found on it.
pub fn choose_continued(zip: Option<String>) -> (r: Result<String, ArchiveError>)
    ensures
        match r {
            Ok(url) => continued_url(web::optional_text(zip)) == Some(url@),
            Err(e) => {
                &&& continued_url(web::optional_text(zip)) is None
                &&& e.is_parse_error("Archive is being prepared, try again later"@)
            },
        },
{
    if let Some(url) = zip {
        if text::has_prefix(url.as_str(), "http") {
            return Ok(url);
        }
    }
    Err(ArchiveError::Parse("Archive is being prepared, try again later".to_string()))
}

/// Why the archiver's page refuses.
pub open spec fn archiver_refusal(html: Seq<char>) -> Option<ArchiveError> {
    if text::contains(html, "This gallery is unavailable"@) {
        Some(ArchiveError::NotAvailable)
    } else if text::contains(html, "insufficient funds"@) || text::contains(
        html,
        "You do not have enough"@,
    ) {
        Some(ArchiveError::InsufficientCredits)
    } else {
        None
    }
}

/// The archive info for what the two searches for a link found: on the page
/// itself, and in the script of the first link that opens the archiver.
pub open spec fn info_link(
    page: Option<Seq<Option<Seq<char>>>>,
    script: Option<Seq<Option<Seq<char>>>>,
) -> Option<Seq<Option<Seq<char>>>> {
    if page is Some {
        page
    } else {
        script
    }
}

/// The archive info for what the two searches for a link found.
pub fn info_from(
    gallery_id: &str,
    gallery_token: &str,
    page: Option<Vec<Option<String>>>,
    script: Option<Vec<Option<String>>>,
) -> (r: Result<ArchiveInfo, ArchiveError>)
    ensures
        match info_link(web::optional_list(page), web::optional_list(script)) {
            Some(link) => r is Ok && r->Ok_0.says(link, gallery_id@, gallery_token@),
            None => r == Err::<ArchiveInfo, ArchiveError>(ArchiveError::NotAvailable),
        },
{
    let link = match page {
        Some(groups) => groups,
        None => match script {
            Some(groups) => groups,
            None => {
                return Err(ArchiveError::NotAvailable);
            },
        },
    };
    let (gid, token, or_token) = linked(&link, gallery_id, gallery_token);
    let mut archiver_key = "gid=".to_string();
    archiver_key.append(gid.as_str());
    archiver_key.append("&token=");
    archiver_key.append(token.as_str());
    let available_resolutions: Vec<ArchiveResolution> = vec![
        ArchiveResolution::Original,
        ArchiveResolution::Res2400,
        ArchiveResolution::Res1600,
        ArchiveResolution::Res1280,
        ArchiveResolution::Res980,
        ArchiveResolution::Res780,
    ];
    proof {
        assert(available_resolutions@ =~= all_resolutions());
    }
    Ok(
        ArchiveInfo {
            archiver_key,
            or_token,
            available_resolutions,
            estimated_size: None,
            gp_cost: None,
        },
    )
}

/// The script of the first link that opens the archiver, searched for its address.
pub open spec fn script_link(html: Seq<char>) -> Option<Seq<Option<Seq<char>>>> {
    match first_attribute(web::selected_attributes(html, ARCHIVER_SELECTOR@, "onclick"@)) {
        Some(script) => web::regex_groups(ARCHIVER_LINK@, script),
        None => None,
    }
}

/// Whether progress is noted after a chunk: at every full MiB and, where
/// `at_end`, when all is there.
pub open spec fn progress_due(downloaded: u64, content_length: u64, at_end: bool) -> bool {
    downloaded % 1048576 == 0 || (at_end && downloaded == content_length)
}

pub fn is_progress_due(downloaded: u64, content_length: u64, at_end: bool) -> (r: bool)
    ensures
        r == progress_due(downloaded, content_length, at_end),
{
    downloaded % 1048576 == 0 || (at_end && downloaded == content_length)
}

/// How much of an archive has been written.
pub struct ArchiveProgress {
    pub downloaded: u64,
    /// The length that was announced.
    pub content_length: u64,
}

impl ArchiveProgress {
    pub fn new(content_length: u64) -> (r: Self)
        ensures
            r == (ArchiveProgress { downloaded: 0, content_length }),
    {
        ArchiveProgress { downloaded: 0, content_length }
    }

    /// A chunk has been written: the progress, where it is to be noted.
    pub fn chunk_written(&mut self, bytes: u64) -> (r: Option<u64>)
        ensures
            *final(self) == (ArchiveProgress {
                downloaded: old(self).downloaded.wrapping_add(bytes),
                ..*old(self)
            }),
            r == (if progress_due(
                final(self).downloaded,
                old(self).content_length,
                true,
            ) {
                Some(final(self).downloaded)
            } else {
                None
            }),
    {
        self.downloaded = self.downloaded.wrapping_add(bytes);
        if is_progress_due(self.downloaded, self.content_length, true) {
            Some(self.downloaded)
        } else {
            None
        }
    }
}

impl ArchiveDownloader {
    pub open spec fn base(&self) -> Seq<char> {
        site(self.config.exhentai_cookies is Some)
    }

    pub fn new(config: Config, downloads_dir: String) -> (r: Self)
        ensures
            r.config == config,
            r.downloads_dir == downloads_dir,
    {
        ArchiveDownloader { config, downloads_dir }
    }

    /// The site that this client reads galleries from.
    pub fn base_url(&self) -> (r: &'static str)
        ensures
            r@ == self.base(),
    {
        site_of(self.config.has_exhentai_access())
    }

    /// The gallery page to ask for archive information.
    pub fn archive_info_request(&self, gallery_id: &str, gallery_token: &str) -> (url: String)
        ensures
            url@ == gallery_page(self.base(), gallery_id@, gallery_token@),
    {
        gallery_page_url(self.base_url(), gallery_id, gallery_token)
    }

    /// Extract the archiver's key from a gallery page; `missing` where there was
    /// no such page. A very short page is one that hides the gallery.
    pub fn get_archive_info(
        &self,
        gallery_id: &str,
        gallery_token: &str,
        missing: bool,
        html: &str,
    ) -> (r: Result<ArchiveInfo, ArchiveError>)
        requires
            !missing && !text::contains(html@, "Content Warning"@) ==> web::is_readable(html@),
        ensures
            missing ==> r is Err && r->Err_0.is_not_found(gallery_id@),
            !missing && (text::byte_len(html@) < 1000 || text::contains(html@, "Content Warning"@))
                ==> r == Err::<ArchiveInfo, ArchiveError>(ArchiveError::AccessDenied),
            !missing && text::byte_len(html@) >= 1000 && !text::contains(
                html@,
                "Content Warning"@,
            ) ==> match info_link(
                web::regex_groups(ARCHIVER_LINK@, html@),
                script_link(html@),
            ) {
                Some(link) => r is Ok && r->Ok_0.says(link, gallery_id@, gallery_token@),
                None => r == Err::<ArchiveInfo, ArchiveError>(ArchiveError::NotAvailable),
            },
    {
        if missing {
            return Err(ArchiveError::NotFound(gallery_id.to_string()));
        }
        if text::byte_length(html) < 1000 || text::has_substring(html, "Content Warning") {
            return Err(ArchiveError::AccessDenied);
        }
        let page = web::regex_captures(ARCHIVER_LINK, html);
        let picked = web::select_attributes(html, ARCHIVER_SELECTOR, "onclick");
        let script = match first_picked(&picked) {
            Some(onclick) => web::regex_captures(ARCHIVER_LINK, onclick.as_str()),
            None => None,
        };
        info_from(gallery_id, gallery_token, page, script)
    }

    /// The archiver's page to request an archive from.
    pub fn archiver_request(
        &self,
        gallery_id: &str,
        gallery_token: &str,
        or_token: &Option<String>,
    ) -> (url: String)
        ensures
            url@ == archiver_page(
                self.base(),
                gallery_id@,
                gallery_token@,
                web::optional_text(*or_token),
            ),
    {
        archiver_page_url(self.base_url(), gallery_id, gallery_token, or_token)
    }

    /// Read the archiver's page: the form to send in order to have the archive
    /// made. Without a form that leads on it goes to the page itself.
    pub fn request_archive(&self, html: &str, archiver_url: &str, resolution: ArchiveResolution)
        -> (r: Result<ArchiverForm, ArchiveError>)
        requires
            archiver_refusal(html@) is None ==> web::is_readable(html@),
        ensures
            match r {
                Ok(form) => {
                    &&& archiver_refusal(html@) is None
                    &&& form.url@ == match web::selected_attributes(html@, "form"@, "action"@) {
                        Some(actions) => match form_action(actions) {
                            Some(action) => action,
                            None => archiver_url@,
                        },
                        None => archiver_url@,
                    }
                    &&& form.asks_for(resolution)
                },
                Err(e) => archiver_refusal(html@) == Some(e),
            },
    {
        if text::has_substring(html, "This gallery is unavailable") {
            return Err(ArchiveError::NotAvailable);
        }
        if text::has_substring(html, "insufficient funds") || text::has_substring(
            html,
            "You do not have enough",
        ) {
            return Err(ArchiveError::InsufficientCredits);
        }
        let action = match web::select_attributes(html, "form", "action") {
            Some(actions) => form_action_of(&actions),
            None => None,
        };
        let url = match action {
            Some(action) => action,
            None => archiver_url.to_string(),
        };
        Ok(ArchiverForm::new(url, resolution))
    }

    /// Read the page that answers the form.
    pub fn archive_result(&self, html: &str) -> (r: Result<ArchiveStep, ArchiveError>)
        ensures
            step_matches(
                r,
                result_of(
                    html@,
                    self.base(),
                    web::captured(web::regex_groups(ZIP_LINK@, html@), 1),
                    web::captured(web::regex_groups(HAH_LINK@, html@), 1),
                    web::captured(web::regex_groups(CONTINUE_LINK@, html@), 1),
                ),
            ),
    {
        let zip = web::regex_captures(ZIP_LINK, html);
        let hah = web::regex_captures(HAH_LINK, html);
        let next = web::regex_captures(CONTINUE_LINK, html);
        choose_step(
            html,
            self.base_url(),
            web::captured_group(&zip, 1),
            web::captured_group(&hah, 1),
            web::captured_group(&next, 1),
        )
    }

    /// Read the page that was waited for.
    pub fn continued_result(&self, html: &str) -> (r: Result<String, ArchiveError>)
        ensures
            ({
                let url = continued_url(web::captured(web::regex_groups(ZIP_LINK@, html@), 1));
                match r {
                    Ok(s) => url == Some(s@),
                    Err(e) => {
                        &&& url is None
                        &&& e.is_parse_error("Archive is being prepared, try again later"@)
                    },
                }
            }),
    {
        let zip = web::regex_captures(ZIP_LINK, html);
        choose_continued(web::captured_group(&zip, 1))
    }

    /// Check the reply to a download: the names of the file and of the one it is
    /// written to until it is complete.
    pub fn download_archive(
        &self,
        success: bool,
        status: &str,
        header: &Option<String>,
        gallery_id: &str,
        resolution: ArchiveResolution,
    ) -> (r: Result<(String, String), ArchiveError>)
        ensures
            ({
                let name = safe_name(
                    archive_name(
                        header_name(web::optional_text(*header)),
                        gallery_id@,
                        resolution,
                    ),
                    false,
                );
                match r {
                    Ok((file, temporary)) => {
                        &&& success
                        &&& file@ == name
                        &&& temporary@ == "."@ + name + ".tmp"@
                    },
                    Err(e) => !success && e.is_download_failure("HTTP "@ + status@),
                }
            }),
    {
        if !success {
            return Err(ArchiveError::DownloadFailed("HTTP ".to_string().concat(status)));
        }
        let name = archive_filename(header, gallery_id, resolution);
        let file = safe_filename(name.as_str(), false);
        let temporary = temporary_name(file.as_str());
        Ok((file, temporary))
    }

    /// Find the archive's address on a result page.
    pub fn extract_download_url(html: &str, base_url: &str) -> (r: Result<String, String>)
        ensures
            match r {
                Ok(url) => first_absolute(found_links(html@), base_url@) == Some(url@),
                Err(m) => {
                    &&& first_absolute(found_links(html@), base_url@) is None
                    &&& m@ == no_url_text(html@)
                },
            },
    {
        let location = web::regex_captures(LOCATION_PATTERN, html);
        let anchor = web::regex_captures(ANCHOR_PATTERN, html);
        let archive = web::regex_captures(ARCHIVE_PATTERN, html);
        let zip = web::regex_captures(ZIP_PATTERN, html);
        let found: Vec<Option<String>> = vec![
            web::captured_group(&location, 1),
            web::captured_group(&anchor, 1),
            web::captured_group(&archive, 1),
            web::captured_group(&zip, 1),
        ];
        proof {
            assert(web::optional_texts(found@) =~= found_links(html@));
        }
        choose_download_url(&found, html, base_url)
    }

    /// Get the path of the downloads directory.
    pub fn get_downloads_dir(&self) -> (r: &str)
        ensures
            r@ == self.downloads_dir@,
    {
        self.downloads_dir.as_str()
    }

    /// Parse a gallery URL to extract its number and token.
    pub fn parse_gallery_url(url: &str) -> (r: Option<(String, String)>)
        ensures
            pair_views(r) == gallery_of(web::regex_groups(web::GALLERY_LINK@, url@)),
            forall|exhentai: bool, id: Seq<char>, token: Seq<char>, rest: Seq<char>| #[trigger]
                web::is_gallery_address(url@, exhentai, id, token, rest) ==> pair_views(r) == Some(
                    (id, token),
                ),
    {
        let groups = web::regex_captures(web::GALLERY_LINK, url);
        gallery_from(&groups)
    }
}

fn temporary_name(file: &str) -> (r: String)
    ensures
        r@ == "."@ + file@ + ".tmp"@,
{
    let mut name = ".".to_string();
    name.append(file);
    name.append(".tmp");
    name
}

// ---------------------------------------------------------------------------
// A queued download
// ---------------------------------------------------------------------------

/// How far a queued download has come.
#[derive(Debug, Clone, Copy, PartialEq, Eq, Structural)]
pub enum ArchiveStage {
    /// Nothing has been asked for.
    Queued,
    /// The gallery page has been asked for.
    Gallery,
    /// The archiver's page has been asked for.
    Archiver,
    /// The archiver's form has been sent.
    Form,
    /// The archive has been asked for.
    Archive,
    /// The archive is being received.
    Receiving,
    /// The archive is there.
    Completed,
    /// The download has failed.
    Failed,
}

/// A queued download.
pub struct ArchiveJob {
    pub gallery_id: String,
    pub gallery_token: String,
    pub resolution: ArchiveResolution,
    pub exhentai: bool,
    pub stage: ArchiveStage,
    pub archiver_url: String,
    pub file_name: String,
    pub downloaded: u64,
}

/// What to do next for a queued download.
pub enum ArchiveAction {
    /// Set the status to `preparing` and fetch this page.
    FetchGallery(String),
    /// Fetch this page.
    FetchArchiver(String),
    /// Send the form.
    SendForm(ArchiverForm),
    /// Set the status to `downloading` and fetch the archive.
    FetchArchive(String),
    /// Write to the temporary file; note the size of the whole, where it is known.
    Receive { file_name: String, temporary: String, file_size: Option<u64> },
    /// Write on; note the progress where there is some.
    Write { progress: Option<u64> },
    /// Rename the temporary file and set the status to `completed`.
    Complete { file_name: String, temporary: String, size: u64 },
    /// Give up. The status becomes `failed` where there is an error to note.
    GiveUp { noted: Option<String>, message: String },
}

/// The archiver's page does not let the archive be made for want of credits.
pub open spec fn lacks_credits(html: Seq<char>) -> bool {
    text::contains(html, "insufficient funds"@) || text::contains(html, "not have enough"@)
}

impl ArchiveJob {
    pub open spec fn base(&self) -> Seq<char> {
        site(self.exhentai)
    }

    /// Only the stage differs.
    pub open spec fn moved(&self, before: &ArchiveJob, stage: ArchiveStage) -> bool {
        *self == (ArchiveJob { stage, ..*before })
    }

    /// A download that is to be made.
    pub fn new(request: ArchiveRequest, exhentai: bool) -> (r: Self)
        ensures
            r.gallery_id == request.gallery_id,
            r.gallery_token == request.gallery_token,
            r.resolution == request.resolution,
            r.exhentai == exhentai,
            r.stage == ArchiveStage::Queued,
            r.archiver_url@.len() == 0,
            r.file_name@.len() == 0,
            r.downloaded == 0,
    {
        ArchiveJob {
            gallery_id: request.gallery_id,
            gallery_token: request.gallery_token,
            resolution: request.resolution,
            exhentai,
            stage: ArchiveStage::Queued,
            archiver_url: String::new(),
            file_name: String::new(),
            downloaded: 0,
        }
    }

    /// Begin with the gallery page.
    pub fn start(&mut self) -> (action: ArchiveAction)
        requires
            old(self).stage == ArchiveStage::Queued,
        ensures
            final(self).moved(old(self), ArchiveStage::Gallery),
            action is FetchGallery,
            action->FetchGallery_0@ == gallery_page(
                old(self).base(),
                old(self).gallery_id@,
                old(self).gallery_token@,
            ),
    {
        self.stage = ArchiveStage::Gallery;
        ArchiveAction::FetchGallery(
            gallery_page_url(
                site_of(self.exhentai),
                self.gallery_id.as_str(),
                self.gallery_token.as_str(),
            ),
        )
    }

    /// The archiver's page that a link found on the gallery page leads to; without
    /// a link the gallery's own number and token do.
    pub open spec fn archiver_for(&self, link: Option<Seq<Option<Seq<char>>>>) -> Seq<char> {
        match link {
            Some(groups) => {
                let (gid, token, or) = linked_archiver(
                    groups,
                    self.gallery_id@,
                    self.gallery_token@,
                );
                archiver_page(self.base(), gid, token, or)
            },
            None => archiver_page(self.base(), self.gallery_id@, self.gallery_token@, None),
        }
    }

    /// The link to the archiver that was found on the gallery page.
    pub fn gallery_link(&mut self, link: Option<Vec<Option<String>>>) -> (action: ArchiveAction)
        requires
            old(self).stage == ArchiveStage::Gallery,
        ensures
            action is FetchArchiver,
            action->FetchArchiver_0@ == old(self).archiver_for(web::optional_list(link)),
            final(self).archiver_url@ == action->FetchArchiver_0@,
            *final(self) == (ArchiveJob {
                stage: ArchiveStage::Archiver,
                archiver_url: final(self).archiver_url,
                ..*old(self)
            }),
    {
        let url = match &link {
            Some(groups) => {
                let (gid, token, or_token) = linked(
                    groups,
                    self.gallery_id.as_str(),
                    self.gallery_token.as_str(),
                );
                archiver_page_url(
                    site_of(self.exhentai),
                    gid.as_str(),
                    token.as_str(),
                    &or_token,
                )
            },
            None => {
                let or_token: Option<String> = None;
                archiver_page_url(
                    site_of(self.exhentai),
                    self.gallery_id.as_str(),
                    self.gallery_token.as_str(),
                    &or_token,
                )
            },
        };
        self.stage = ArchiveStage::Archiver;
        self.archiver_url = url.clone();
        ArchiveAction::FetchArchiver(url)
    }

    /// The gallery page has arrived.
    pub fn gallery_arrived(&mut self, html: &str) -> (action: ArchiveAction)
        requires
            old(self).stage == ArchiveStage::Gallery,
        ensures
            action is FetchArchiver,
            action->FetchArchiver_0@ == old(self).archiver_for(
                web::regex_groups(ARCHIVER_LINK@, html@),
            ),
            final(self).archiver_url@ == action->FetchArchiver_0@,
            *final(self) == (ArchiveJob {
                stage: ArchiveStage::Archiver,
                archiver_url: final(self).archiver_url,
                ..*old(self)
            }),
    {
        let link = web::regex_captures(ARCHIVER_LINK, html);
        self.gallery_link(link)
    }

    /// The archiver's page has arrived: send its form, or fail for want of credits.
    pub fn archiver_arrived(&mut self, html: &str) -> (action: ArchiveAction)
        requires
            old(self).stage == ArchiveStage::Archiver,
        ensures
            lacks_credits(html@) ==> {
                &&& final(self).moved(old(self), ArchiveStage::Failed)
                &&& action is GiveUp
                &&& web::optional_text(action->noted) == Some("Insufficient GP/Credits"@)
                &&& action->message@ == "Insufficient GP/Credits"@
            },
            !lacks_credits(html@) ==> {
                &&& final(self).moved(old(self), ArchiveStage::Form)
                &&& action is SendForm
                &&& action->SendForm_0.url@ == old(self).archiver_url@
                &&& action->SendForm_0.asks_for(old(self).resolution)
            },
    {
        if text::has_substring(html, "insufficient funds") || text::has_substring(
            html,
            "not have enough",
        ) {
            self.stage = ArchiveStage::Failed;
            return ArchiveAction::GiveUp {
                noted: Some("Insufficient GP/Credits".to_string()),
                message: "Insufficient GP/Credits".to_string(),
            };
        }
        self.stage = ArchiveStage::Form;
        ArchiveAction::SendForm(ArchiverForm::new(self.archiver_url.clone(), self.resolution))
    }

    /// The page that answers the form has arrived: fetch the archive it names.
    /// Without one the download is given up, and its status left as it is.
    pub fn result_arrived(&mut self, html: &str) -> (action: ArchiveAction)
        requires
            old(self).stage == ArchiveStage::Form,
        ensures
            match first_absolute(found_links(html@), old(self).base()) {
                Some(url) => {
                    &&& final(self).moved(old(self), ArchiveStage::Archive)
                    &&& action is FetchArchive
                    &&& action->FetchArchive_0@ == url
                },
                None => {
                    &&& final(self).moved(old(self), ArchiveStage::Failed)
                    &&& action is GiveUp
                    &&& action->noted is None
                    &&& action->message@ == no_url_text(html@)
                },
            },
    {
        match ArchiveDownloader::extract_download_url(html, site_of(self.exhentai)) {
            Ok(url) => {
                self.stage = ArchiveStage::Archive;
                ArchiveAction::FetchArchive(url)
            },
            Err(message) => {
                self.stage = ArchiveStage::Failed;
                ArchiveAction::GiveUp { noted: None, message }
            },
        }
    }

    /// The reply to the request for the archive has begun.
    pub fn reply_arrived(
        &mut self,
        success: bool,
        status: &str,
        header: &Option<String>,
        content_length: u64,
    ) -> (action: ArchiveAction)
        requires
            old(self).stage == ArchiveStage::Archive,
        ensures
            !success ==> {
                &&& final(self).moved(old(self), ArchiveStage::Failed)
                &&& action is GiveUp
                &&& web::optional_text(action->noted) == Some("HTTP "@ + status@)
                &&& action->message@ == "Download failed: HTTP "@ + status@
            },
            success ==> {
                let name = safe_name(
                    archive_name(
                        header_name(web::optional_text(*header)),
                        old(self).gallery_id@,
                        old(self).resolution,
                    ),
                    true,
                );
                &&& final(self).file_name@ == name
                &&& *final(self) == (ArchiveJob {
                    stage: ArchiveStage::Receiving,
                    file_name: final(self).file_name,
                    downloaded: 0,
                    ..*old(self)
                })
                &&& action is Receive
                &&& action->Receive_file_name@ == name
                &&& action->Receive_temporary@ == "."@ + name + ".tmp"@
                &&& action->file_size == (if content_length > 0 {
                    Some(content_length)
                } else {
                    None
                })
            },
    {
        if !success {
            self.stage = ArchiveStage::Failed;
            return ArchiveAction::GiveUp {
                noted: Some("HTTP ".to_string().concat(status)),
                message: "Download failed: HTTP ".to_string().concat(status),
            };
        }
        let name = archive_filename(header, self.gallery_id.as_str(), self.resolution);
        let file_name = safe_filename(name.as_str(), true);
        let temporary = temporary_name(file_name.as_str());
        self.stage = ArchiveStage::Receiving;
        self.file_name = file_name.clone();
        self.downloaded = 0;
        ArchiveAction::Receive {
            file_name,
            temporary,
            file_size: if content_length > 0 {
                Some(content_length)
            } else {
                None
            },
        }
    }

    /// A chunk of the archive has been written.
    pub fn chunk_written(&mut self, bytes: u64) -> (action: ArchiveAction)
        requires
            old(self).stage == ArchiveStage::Receiving,
        ensures
            *final(self) == (ArchiveJob {
                downloaded: old(self).downloaded.wrapping_add(bytes),
                ..*old(self)
            }),
            action is Write,
            action->progress == (if progress_due(final(self).downloaded, 0, false) {
                Some(final(self).downloaded)
            } else {
                None
            }),
    {
        self.downloaded = self.downloaded.wrapping_add(bytes);
        ArchiveAction::Write {
            progress: if is_progress_due(self.downloaded, 0, false) {
                Some(self.downloaded)
            } else {
                None
            },
        }
    }

    /// The archive has been received.
    pub fn finish(&mut self) -> (action: ArchiveAction)
        requires
            old(self).stage == ArchiveStage::Receiving,
        ensures
            final(self).moved(old(self), ArchiveStage::Completed),
            action is Complete,
            action->Complete_file_name@ == old(self).file_name@,
            action->Complete_temporary@ == "."@ + old(self).file_name@ + ".tmp"@,
            action->size == old(self).downloaded,
    {
        self.stage = ArchiveStage::Completed;
        ArchiveAction::Complete {
            file_name: self.file_name.clone(),
            temporary: temporary_name(self.file_name.as_str()),
            size: self.downloaded,
        }
    }
}

/// The first completed archive whose file is known.
pub open spec fn first_completed(statuses: Seq<ArchiveStatus>) -> Option<Seq<char>>
    decreases statuses.len(),
{
    if statuses.len() == 0 {
        None
    } else if statuses.first().status@ == "completed"@ && statuses.first().file_path is Some {
        Some(statuses.first().file_path->0@)
    } else {
        first_completed(statuses.drop_first())
    }
}

/// The file of the first completed archive.
pub fn completed_file(statuses: &Vec<ArchiveStatus>) -> (r: Option<String>)
    ensures
        web::optional_text(r) == first_completed(statuses@),
{
    let mut i: usize = 0;
    proof {
        assert(statuses@.skip(0) =~= statuses@);
    }
    while i < statuses.len()
        invariant
            i <= statuses.len(),
            first_completed(statuses@) == first_completed(statuses@.skip(i as int)),
        decreases statuses.len() - i,
    {
        proof {
            assert(statuses@.skip(i as int).drop_first() =~= statuses@.skip(i + 1));
        }
        if text::same(statuses[i].status.as_str(), "completed") {
            if let Some(path) = &statuses[i].file_path {
                return Some(path.clone());
            }
        }
        i = i + 1;
    }
    None
}

/// A link that has a scheme or begins with a slash becomes absolute; what comes
/// of a link that is absolute is the link itself.
pub proof fn law_links_become_absolute(url: Seq<char>, base: Seq<char>)
    requires
        text::starts_with(base, "http"@),
    ensures
        absolute(url, base) is Some ==> text::starts_with(absolute(url, base)->0, "http"@),
        text::starts_with(url, "http"@) ==> absolute(url, base) == Some(url),
        absolute(url, base) is None <==> !text::starts_with(url, "/"@) && !text::starts_with(
            url,
            "http"@,
        ),
{
    reveal_strlit("/");
    reveal_strlit("//");
    reveal_strlit("http");
    reveal_strlit("https:");
    assert("https:"@.take(4) =~= "http"@);
    assert(("https:"@ + url).subrange(0, 4) =~= "http"@);
    assert((base + url).subrange(0, 4) =~= base.subrange(0, 4));
    if text::starts_with(url, "//"@) {
        assert(url[0] == '/') by {
            assert(url.subrange(0, 2)[0] == "//"@[0]);
        }
        assert(url.subrange(0, 1) =~= "/"@);
    }
    if text::starts_with(url, "http"@) {
        assert(url.subrange(0, 4)[0] == 'h');
        assert(url[0] == 'h');
        if text::starts_with(url, "/"@) {
            assert(url.subrange(0, 1)[0] == '/');
        }
        if text::starts_with(url, "//"@) {
            assert(url.subrange(0, 2)[0] == '/');
        }
    }
}

/// The page that is asked for a gallery is an address from which the gallery's
/// number and token are read back.
pub proof fn law_gallery_pages_are_addresses(exhentai: bool, id: Seq<char>, token: Seq<char>)
    requires
        id.len() > 0,
        forall|i: int| 0 <= i < id.len() ==> text::is_digit(#[trigger] id[i]),
        token.len() > 0,
        forall|i: int| 0 <= i < token.len() ==> web::is_token_char(#[trigger] token[i]),
    ensures
        web::is_gallery_address(
            gallery_page(site(exhentai), id, token),
            exhentai,
            id,
            token,
            "/"@,
        ),
{
    reveal_strlit("/");
}

/// All bytes of the chunks.
pub open spec fn chunk_bytes(chunks: Seq<u64>) -> nat
    decreases chunks.len(),
{
    if chunks.len() == 0 {
        0
    } else {
        chunk_bytes(chunks.drop_last()) + chunks.last() as nat
    }
}

/// A download after chunks have been written in turn.
pub open spec fn after_chunks(job: ArchiveJob, chunks: Seq<u64>) -> ArchiveJob
    decreases chunks.len(),
{
    if chunks.len() == 0 {
        job
    } else {
        let before = after_chunks(job, chunks.drop_last());
        ArchiveJob { downloaded: before.downloaded.wrapping_add(chunks.last()), ..before }
    }
}

/// A download is as large as the chunks that were written, and nothing else of it
/// changes meanwhile: the file that is completed is the one that was begun.
pub proof fn law_size_is_what_was_written(job: ArchiveJob, chunks: Seq<u64>)
    requires
        job.downloaded + chunk_bytes(chunks) <= u64::MAX,
    ensures
        after_chunks(job, chunks) == (ArchiveJob {
            downloaded: (job.downloaded + chunk_bytes(chunks)) as u64,
            ..job
        }),
    decreases chunks.len(),
{
    if chunks.len() > 0 {
        law_size_is_what_was_written(job, chunks.drop_last());
    }
}

/// The six resolutions and their names, which are read in any case of their letters; the
/// original one goes by two. The form asks for the original archive, or for one of a
/// resolution by its name.
pub proof fn law_resolutions_are_named(
    r: ArchiveResolution,
    code: &'static str,
    s: &str,
    read: Option<ArchiveResolution>,
    fields: (&'static str, &'static str, &'static str),
)
    requires
        call_ensures(ArchiveResolution::as_str, (&r,), code),
        call_ensures(ArchiveResolution::from_str, (s,), read),
        call_ensures(ArchiveResolution::form_fields, (&r,), fields),
    ensures
        r == ArchiveResolution::Original ==> code@ == "org"@,
        r == ArchiveResolution::Res2400 ==> code@ == "2400"@,
        r == ArchiveResolution::Res1600 ==> code@ == "1600"@,
        r == ArchiveResolution::Res1280 ==> code@ == "1280"@,
        r == ArchiveResolution::Res980 ==> code@ == "980"@,
        r == ArchiveResolution::Res780 ==> code@ == "780"@,
        ({
            let lower = text::lowercase(s@);
            &&& read == Some(ArchiveResolution::Original) <==> lower == "org"@ || lower
                == "original"@
            &&& read == Some(ArchiveResolution::Res2400) <==> lower == "2400"@
            &&& read == Some(ArchiveResolution::Res1600) <==> lower == "1600"@
            &&& read == Some(ArchiveResolution::Res1280) <==> lower == "1280"@
            &&& read == Some(ArchiveResolution::Res980) <==> lower == "980"@
            &&& read == Some(ArchiveResolution::Res780) <==> lower == "780"@
        }),
        r == ArchiveResolution::Original ==> fields.0@ == "org"@ && fields.1@
            == "Download Original Archive"@,
        r != ArchiveResolution::Original ==> fields.0@ == "res"@ && fields.1@
            == "Download Resample Archive"@,
        fields.2@ == code@,
{
    reveal_strlit("org");
    reveal_strlit("original");
    reveal_strlit("2400");
    reveal_strlit("1600");
    reveal_strlit("1280");
    reveal_strlit("980");
    reveal_strlit("780");
    assert("org"@.len() == 3 && "original"@.len() == 8 && "2400"@.len() == 4 && "1600"@.len() == 4
        && "1280"@.len() == 4 && "980"@.len() == 3 && "780"@.len() == 3);
    assert("2400"@[0] == '2' && "1600"@[0] == '1' && "1280"@[0] == '1' && "1600"@[1] == '6'
        && "1280"@[1] == '2' && "980"@[0] == '9' && "780"@[0] == '7' && "org"@[0] == 'o');
}

/// The pages of a gallery and of its archiver.
pub proof fn law_pages_are_addressed(
    exhentai: bool,
    base: &'static str,
    id: &str,
    token: &str,
    page: String,
    or: Option<String>,
    archiver: String,
    other: &str,
)
    requires
        call_ensures(site_of, (exhentai,), base),
        call_ensures(gallery_page_url, (other, id, token), page),
        call_ensures(archiver_page_url, (other, id, token, &or), archiver),
    ensures
        exhentai ==> base@ == "https://exhentai.org"@,
        !exhentai ==> base@ == "https://e-hentai.org"@,
        page@ == other@ + "/g/"@ + id@ + "/"@ + token@ + "/"@,
        or is None ==> archiver@ == other@ + "/archiver.php?gid="@ + id@ + "&token="@ + token@,
        or matches Some(key) ==> archiver@ == other@ + "/archiver.php?gid="@ + id@ + "&token="@
            + token@ + "&or="@ + key@,
{
}

/// A link without a scheme gets one, a link without a site the site, and a link of the web
/// is taken as it is; any other is no link.
pub proof fn law_links_are_completed(rest: Seq<char>, base: Seq<char>, url: Seq<char>)
    ensures
        absolute("//"@ + rest, base) == Some("https:"@ + ("//"@ + rest)),
        rest.len() == 0 || rest[0] != '/' ==> absolute("/"@ + rest, base) == Some(
            base + ("/"@ + rest),
        ),
        absolute("http"@ + rest, base) == Some("http"@ + rest),
        !text::starts_with(url, "/"@) && !text::starts_with(url, "http"@) ==> absolute(url, base)
            is None,
{
    reveal_strlit("/");
    reveal_strlit("//");
    reveal_strlit("http");
    text::law_substrings("//"@ + rest, "//"@);
    text::law_substrings("/"@ + rest, "/"@);
    text::law_substrings("http"@ + rest, "http"@);
    let one = "/"@ + rest;
    if text::starts_with(one, "//"@) {
        assert(one.subrange(0, 2)[1] == '/');
        assert(one[1] == rest[0]);
    }
    let web = "http"@ + rest;
    if text::starts_with(web, "/"@) {
        assert(web.subrange(0, 1)[0] == '/');
        assert(web[0] == 'h');
    }
    if text::starts_with(web, "//"@) {
        assert(web.subrange(0, 2)[0] == '/');
        assert(web[0] == 'h');
    }
    if text::starts_with(url, "//"@) {
        assert(url.subrange(0, 2)[0] == '/');
        assert(url.subrange(0, 1) =~= "/"@);
    }
}

/// The first of the forms that leads on, by what its action contains.
pub proof fn law_first_form_that_leads_on(
    actions: Vec<Option<String>>,
    action: Option<String>,
    i: int,
)
    requires
        call_ensures(form_action_of, (&actions,), action),
    ensures
        (forall|j: int|
            0 <= j < actions@.len() ==> ((#[trigger] actions@[j]) matches Some(a)
                ==> !text::contains(
                a@,
                "archiver.php"@,
            ) && !text::contains(a@, "?start="@))) ==> action is None,
        0 <= i < actions@.len() && actions@[i] is Some && (text::contains(
            actions@[i]->0@,
            "archiver.php"@,
        ) || text::contains(actions@[i]->0@, "?start="@)) && (forall|j: int|
            0 <= j < i ==> ((#[trigger] actions@[j]) matches Some(a) ==> !text::contains(
                a@,
                "archiver.php"@,
            ) && !text::contains(a@, "?start="@))) ==> action is Some && action->0@
            == actions@[i]->0@,
{
    let all = web::optional_texts(actions@);
    assert forall|j: int| 0 <= j < actions@.len() implies all[j] == web::optional_text(
        #[trigger] actions@[j],
    ) by {}
    if forall|j: int|
        0 <= j < actions@.len() ==> ((#[trigger] actions@[j]) matches Some(a) ==> !text::contains(
            a@,
            "archiver.php"@,
        ) && !text::contains(a@, "?start="@)) {
        assert forall|j: int| 0 <= j < all.len() implies ((#[trigger] all[j]) matches Some(a)
            ==> !text::contains(a, "archiver.php"@) && !text::contains(a, "?start="@)) by {
            assert(all[j] == web::optional_text(actions@[j]));
        }
        lemma_form_action(all, all.len() as int);
    }
    if 0 <= i < actions@.len() && actions@[i] is Some && (text::contains(
        actions@[i]->0@,
        "archiver.php"@,
    ) || text::contains(actions@[i]->0@, "?start="@)) && (forall|j: int|
        0 <= j < i ==> ((#[trigger] actions@[j]) matches Some(a) ==> !text::contains(
            a@,
            "archiver.php"@,
        ) && !text::contains(a@, "?start="@))) {
        assert forall|j: int| 0 <= j < i implies ((#[trigger] all[j]) matches Some(a)
            ==> !text::contains(a, "archiver.php"@) && !text::contains(a, "?start="@)) by {
            assert(all[j] == web::optional_text(actions@[j]));
        }
        assert(all[i] == web::optional_text(actions@[i]));
        lemma_form_action(all, i);
    }
}

proof fn lemma_form_action(actions: Seq<Option<Seq<char>>>, i: int)
    requires
        0 <= i <= actions.len(),
        forall|j: int|
            0 <= j < i ==> ((#[trigger] actions[j]) matches Some(a) ==> !text::contains(
                a,
                "archiver.php"@,
            ) && !text::contains(a, "?start="@)),
        i < actions.len() ==> actions[i] is Some && (text::contains(
            actions[i]->0,
            "archiver.php"@,
        ) || text::contains(actions[i]->0, "?start="@)),
    ensures
        form_action(actions) == (if i < actions.len() {
            actions[i]
        } else {
            None
        }),
    decreases i,
{
    if i > 0 {
        assert(actions[0] == actions.first());
        let rest = actions.drop_first();
        assert forall|j: int| 0 <= j < i - 1 implies ((#[trigger] rest[j]) matches Some(a)
            ==> !text::contains(a, "archiver.php"@) && !text::contains(a, "?start="@)) by {
            assert(rest[j] == actions[j + 1]);
        }
        lemma_form_action(rest, i - 1);
    }
}

/// The address of the archive is the first of the links found that can be completed; where
/// there is none, the page says that the archive is being prepared, or else it names none.
pub proof fn law_first_link_is_taken(
    found: Vec<Option<String>>,
    html: &str,
    base: &str,
    chosen: Result<String, String>,
    i: int,
)
    requires
        call_ensures(choose_download_url, (&found, html, base), chosen),
    ensures
        0 <= i < found@.len() && found@[i] is Some && absolute(found@[i]->0@, base@) is Some && (
        forall|j: int|
            0 <= j < i ==> ((#[trigger] found@[j]) matches Some(url) ==> absolute(url@, base@)
                is None)) ==> chosen is Ok && absolute(found@[i]->0@, base@) == Some(
            chosen->Ok_0@,
        ),
        (forall|j: int|
            0 <= j < found@.len() ==> ((#[trigger] found@[j]) matches Some(url) ==> absolute(
                url@,
                base@,
            ) is None)) ==> chosen is Err,
        chosen matches Err(m) ==> m@ == (if text::contains(html@, "Preparing"@) || text::contains(
            html@,
            "Please wait"@,
        ) {
            "Archive is being prepared, retry later"@
        } else {
            "Could not find download URL"@
        }),
{
    let all = web::optional_texts(found@);
    assert forall|j: int| 0 <= j < found@.len() implies all[j] == web::optional_text(
        #[trigger] found@[j],
    ) by {}
    if forall|j: int|
        0 <= j < found@.len() ==> ((#[trigger] found@[j]) matches Some(url) ==> absolute(
            url@,
            base@,
        ) is None) {
        assert forall|j: int| 0 <= j < all.len() implies ((#[trigger] all[j]) matches Some(url)
            ==> absolute(url, base@) is None) by {
            assert(all[j] == web::optional_text(found@[j]));
        }
        lemma_first_absolute(all, base@, all.len() as int);
    }
    if 0 <= i < found@.len() && found@[i] is Some && absolute(found@[i]->0@, base@) is Some && (
    forall|j: int|
        0 <= j < i ==> ((#[trigger] found@[j]) matches Some(url) ==> absolute(url@, base@)
            is None)) {
        assert forall|j: int| 0 <= j < i implies ((#[trigger] all[j]) matches Some(url)
            ==> absolute(url, base@) is None) by {
            assert(all[j] == web::optional_text(found@[j]));
        }
        assert(all[i] == web::optional_text(found@[i]));
        lemma_first_absolute(all, base@, i);
    }
}

proof fn lemma_first_absolute(found: Seq<Option<Seq<char>>>, base: Seq<char>, i: int)
    requires
        0 <= i <= found.len(),
        forall|j: int|
            0 <= j < i ==> ((#[trigger] found[j]) matches Some(url)
                ==> absolute(url, base) is None),
        i < found.len() ==> found[i] is Some && absolute(found[i]->0, base) is Some,
    ensures
        first_absolute(found, base) == (if i < found.len() {
            absolute(found[i]->0, base)
        } else {
            None
        }),
    decreases i,
{
    if i > 0 {
        assert(found[0] == found.first());
        let rest = found.drop_first();
        assert forall|j: int| 0 <= j < i - 1 implies ((#[trigger] rest[j]) matches Some(url)
            ==> absolute(url, base) is None) by {
            assert(rest[j] == found[j + 1]);
        }
        lemma_first_absolute(rest, base, i - 1);
    }
}

/// A result page is searched for a place that it goes to, a link, an archive and a ZIP
/// file, in this order.
pub proof fn law_result_pages_are_searched(
    html: &str,
    base: &str,
    read: Result<String, String>,
    found: Vec<Option<String>>,
    chosen: Result<String, String>,
)
    requires
        call_ensures(ArchiveDownloader::extract_download_url, (html, base), read),
        call_ensures(choose_download_url, (&found, html, base), chosen),
        found@.len() == 4,
        web::optional_text(found@[0]) == web::captured(
            web::regex_groups(r#"document\.location\s*=\s*["']([^"']+\.zip[^"']*)"#@, html@),
            1,
        ),
        web::optional_text(found@[1]) == web::captured(
            web::regex_groups(r#"<a[^>]*href=["']([^"']+\.zip[^"']*)"#@, html@),
            1,
        ),
        web::optional_text(found@[2]) == web::captured(
            web::regex_groups(r#"(https?://[^\s"'<>]+/archive/[^\s"'<>]+)"#@, html@),
            1,
        ),
        web::optional_text(found@[3]) == web::captured(
            web::regex_groups(r#"(https?://[^\s"'<>]+\.zip[^\s"'<>]*)"#@, html@),
            1,
        ),
    ensures
        read is Ok <==> chosen is Ok,
        read is Ok ==> read->Ok_0@ == chosen->Ok_0@,
        read is Err ==> read->Err_0@ == chosen->Err_0@,
{
    assert(web::optional_texts(found@) =~= found_links(html@));
}

/// A name for the file system keeps letters, digits, dots, underscores and hyphens, and
/// spaces where they may stay; each other character becomes an underscore.
pub proof fn law_names_are_made_safe(name: &str, spaces: bool, safe: String, i: int)
    requires
        call_ensures(safe_filename, (name, spaces), safe),
        0 <= i < name@.len(),
    ensures
        safe@.len() == name@.len(),
        text::is_alphanumeric(name@[i]) || name@[i] == '.' || name@[i] == '_' || name@[i] == '-'
            || (spaces && name@[i] == ' ') ==> safe@[i] == name@[i],
        !text::is_alphanumeric(name@[i]) && name@[i] != '.' && name@[i] != '_' && name@[i] != '-'
            && (!spaces || name@[i] != ' ') ==> safe@[i] == '_',
{
}

/// An archive has the name that the server gave, which a header tells, or else that of its
/// gallery and resolution.
pub proof fn law_archives_are_named(
    given: Option<String>,
    id: &str,
    r: ArchiveResolution,
    code: &'static str,
    name: String,
    header: Option<String>,
    named: String,
)
    requires
        call_ensures(name_or_default, (given, id, r), name),
        call_ensures(ArchiveResolution::as_str, (&r,), code),
        call_ensures(archive_filename, (&header, id, r), named),
    ensures
        given matches Some(s) ==> name@ == s@,
        given is None ==> name@ == id@ + "_"@ + code@ + ".zip"@,
        header is None ==> named@ == id@ + "_"@ + code@ + ".zip"@,
        header matches Some(h) ==> (web::captured(
            web::regex_groups(r#"filename[*]?=(?:UTF-8'')?["']?([^"';\n]+)"#@, h@),
            1,
        ) matches Some(told) ==> named@ == told),
        header matches Some(h) ==> (web::captured(
            web::regex_groups(r#"filename[*]?=(?:UTF-8'')?["']?([^"';\n]+)"#@, h@),
            1,
        ) is None ==> named@ == id@ + "_"@ + code@ + ".zip"@),
{
}

/// What a result page leads to: a ZIP file whose link can be completed, or else an archive
/// of the network; where it says that the archive is being prepared, the link to go on
/// with; and else an error.
pub proof fn law_result_leads_on(
    html: &str,
    base: &str,
    zip: Option<String>,
    hah: Option<String>,
    next: Option<String>,
    step: Result<ArchiveStep, ArchiveError>,
)
    requires
        call_ensures(choose_step, (html, base, zip, hah, next), step),
    ensures
        ({
            let direct = zip is Some && absolute(zip->0@, base@) is Some;
            let waits = text::contains(html@, "Preparing your archive"@) || text::contains(
                html@,
                "Please wait"@,
            );
            &&& direct ==> (step matches Ok(ArchiveStep::Download(url)) && Some(url@) == absolute(
                zip->0@,
                base@,
            ))
            &&& !direct && hah is Some ==> (step matches Ok(ArchiveStep::Download(url)) && url@
                == hah->0@)
            &&& !direct && hah is None && waits && next is Some ==> (step matches Ok(
                ArchiveStep::Continue(url),
            ) && url@ == next->0@)
            &&& !direct && hah is None && waits && next is None ==> (step matches Err(
                ArchiveError::Parse(m),
            ) && m@ == "Archive is being prepared, try again later"@)
            &&& !direct && hah is None && !waits ==> (step matches Err(ArchiveError::Parse(m)) && m@
                == "Could not find download URL"@)
        }),
{
}

/// A page that was waited for, three seconds, leads to a ZIP file of the web, or to none
/// yet. Both pages are read as their patterns find.
pub proof fn law_pages_are_waited_for(
    downloader: ArchiveDownloader,
    html: &str,
    zip: Option<String>,
    hah: Option<String>,
    next: Option<String>,
    chosen: Result<String, ArchiveError>,
    step: Result<ArchiveStep, ArchiveError>,
    base: &'static str,
    read: Result<ArchiveStep, ArchiveError>,
    url: Result<String, ArchiveError>,
)
    requires
        call_ensures(choose_continued, (zip,), chosen),
        call_ensures(ArchiveDownloader::base_url, (&downloader,), base),
        call_ensures(choose_step, (html, base, zip, hah, next), step),
        call_ensures(ArchiveDownloader::archive_result, (&downloader, html), read),
        call_ensures(ArchiveDownloader::continued_result, (&downloader, html), url),
        web::optional_text(zip) == web::captured(
            web::regex_groups(
                r#"(?:document\.location\s*=\s*["']|<a[^>]*href=["'])([^"']+\.zip[^"']*)"#@,
                html@,
            ),
            1,
        ),
        web::optional_text(hah) == web::captured(
            web::regex_groups(r#"(https?://[^"'\s]+/archive/[^"'\s]+)"#@, html@),
            1,
        ),
        web::optional_text(next) == web::captured(
            web::regex_groups(r#"<a[^>]*href=["']([^"']+)["'][^>]*>Click here"#@, html@),
            1,
        ),
    ensures
        PREPARATION_DELAY == 3,
        downloader.config.exhentai_cookies is Some ==> base@ == "https://exhentai.org"@,
        downloader.config.exhentai_cookies is None ==> base@ == "https://e-hentai.org"@,
        zip is Some && text::starts_with(zip->0@, "http"@) ==> chosen is Ok && chosen->Ok_0@
            == zip->0@,
        zip is None || !text::starts_with(zip->0@, "http"@) ==> (chosen matches Err(
            ArchiveError::Parse(m),
        ) && m@ == "Archive is being prepared, try again later"@),
        url is Ok <==> chosen is Ok,
        url is Ok ==> url->Ok_0@ == chosen->Ok_0@,
        read is Ok <==> step is Ok,
        read matches Ok(ArchiveStep::Download(a)) ==> (step matches Ok(ArchiveStep::Download(b))
            && a@ == b@),
        read matches Ok(ArchiveStep::Continue(a)) ==> (step matches Ok(ArchiveStep::Continue(b))
            && a@ == b@),
{
}

/// The archiver is found by the link on the page, or else by the script of a link; what the
/// link does not say of gallery and token is that of the request. All resolutions can be
/// had.
pub proof fn law_archivers_are_found(
    id: &str,
    token: &str,
    page: Option<Vec<Option<String>>>,
    script: Option<Vec<Option<String>>>,
    info: Result<ArchiveInfo, ArchiveError>,
    link: Vec<Option<String>>,
)
    requires
        call_ensures(info_from, (id, token, page, script), info),
        page is Some ==> link == page->0,
        page is None && script is Some ==> link == script->0,
    ensures
        info is Ok <==> page is Some || script is Some,
        info is Err ==> info->Err_0 is NotAvailable,
        info matches Ok(told) ==> {
            let gallery = if link@.len() > 1 && link@[1] is Some {
                link@[1]->0@
            } else {
                id@
            };
            let key = if link@.len() > 2 && link@[2] is Some {
                link@[2]->0@
            } else {
                token@
            };
            &&& told.archiver_key@ == "gid="@ + gallery + "&token="@ + key
            &&& link@.len() > 3 ==> web::optional_text(told.or_token)
                == web::optional_text(link@[3])
            &&& link@.len() <= 3 ==> told.or_token is None
            &&& told.available_resolutions@ == seq![
                ArchiveResolution::Original,
                ArchiveResolution::Res2400,
                ArchiveResolution::Res1600,
                ArchiveResolution::Res1280,
                ArchiveResolution::Res980,
                ArchiveResolution::Res780,
            ]
            &&& told.estimated_size is None && told.gp_cost is None
        },
{
    let groups = web::optional_texts(link@);
    assert(groups.len() == link@.len());
    assert(link@.len() > 1 ==> groups[1] == web::optional_text(link@[1]));
    assert(link@.len() > 2 ==> groups[2] == web::optional_text(link@[2]));
    assert(link@.len() > 3 ==> groups[3] == web::optional_text(link@[3]));
}

/// A gallery page that is missing, too short or a warning gives no archiver; on any other
/// it is searched for.
pub proof fn law_gallery_pages_are_read(
    downloader: ArchiveDownloader,
    id: &str,
    token: &str,
    missing: bool,
    html: &str,
    info: Result<ArchiveInfo, ArchiveError>,
    page: Option<Vec<Option<String>>>,
    script: Option<Vec<Option<String>>>,
    found: Result<ArchiveInfo, ArchiveError>,
)
    requires
        call_ensures(
            ArchiveDownloader::get_archive_info,
            (&downloader, id, token, missing, html),
            info,
        ),
        call_ensures(info_from, (id, token, page, script), found),
        web::optional_list(page) == web::regex_groups(
            r"archiver\.php\?gid=(\d+)&token=([a-f0-9]+)(?:&or=([a-z0-9]+))?"@,
            html@,
        ),
        ({
            let picked = web::selected_attributes(
                html@,
                "a[onclick*='archiver.php']"@,
                "onclick"@,
            );
            &&& picked is Some && (picked->0).len() > 0 && (picked->0)[0] is Some
                ==> web::optional_list(script) == web::regex_groups(
                r"archiver\.php\?gid=(\d+)&token=([a-f0-9]+)(?:&or=([a-z0-9]+))?"@,
                (picked->0)[0]->0,
            )
            &&& picked is None || (picked->0).len() == 0 || (picked->0)[0] is None ==> script
                is None
        }),
    ensures
        missing ==> (info matches Err(ArchiveError::NotFound(m)) && m@ == id@),
        !missing && (encode_utf8(html@).len() < 1000 || text::contains(html@, "Content Warning"@))
            ==> info is Err && info->Err_0 is AccessDenied,
        !missing && encode_utf8(html@).len() >= 1000 && !text::contains(html@, "Content Warning"@)
            ==> {
            &&& info is Ok <==> found is Ok
            &&& info is Err ==> info->Err_0 is NotAvailable
            &&& info is Ok ==> info->Ok_0.archiver_key@ == found->Ok_0.archiver_key@
                && web::optional_text(info->Ok_0.or_token) == web::optional_text(
                found->Ok_0.or_token,
            )
        },
{
    text::lemma_byte_len(html@);
}

/// The archiver's page may say that there is no archive, or that it costs too much; else
/// its form is sent to where the first form that leads on says, or to the page itself.
pub proof fn law_archiver_pages_are_read(
    downloader: ArchiveDownloader,
    html: &str,
    url: &str,
    r: ArchiveResolution,
    form: Result<ArchiverForm, ArchiveError>,
    actions: Vec<Option<String>>,
    action: Option<String>,
    fields: (&'static str, &'static str, &'static str),
)
    requires
        call_ensures(ArchiveDownloader::request_archive, (&downloader, html, url, r), form),
        call_ensures(form_action_of, (&actions,), action),
        web::selected_attributes(html@, "form"@, "action"@) is None ==> actions@.len() == 0,
        web::selected_attributes(html@, "form"@, "action"@) matches Some(picked)
            ==> web::optional_texts(actions@) == picked,
        call_ensures(ArchiveResolution::form_fields, (&r,), fields),
    ensures
        ({
            let gone = text::contains(html@, "This gallery is unavailable"@);
            let poor = text::contains(html@, "insufficient funds"@) || text::contains(
                html@,
                "You do not have enough"@,
            );
            &&& gone ==> form is Err && form->Err_0 is NotAvailable
            &&& !gone && poor ==> form is Err && form->Err_0 is InsufficientCredits
            &&& form is Ok <==> !gone && !poor
        }),
        form matches Ok(sent) ==> {
            &&& action matches Some(a) ==> sent.url@ == a@
            &&& action is None ==> sent.url@ == url@
            &&& sent.dltype@ == fields.0@ && sent.dlcheck@ == fields.1@ && sent.xres@ == fields.2@
        },
{
    let all = web::optional_texts(actions@);
    assert(all.len() == actions@.len());
    if actions@.len() == 0 {
        assert(form_action(all) is None);
    }
}

/// The form and its fields, and the pages of a client that has the one site or the other.
pub proof fn law_forms_are_filled(
    url: String,
    r: ArchiveResolution,
    form: ArchiverForm,
    fields: (&'static str, &'static str, &'static str),
    named: Vec<(&'static str, &str)>,
    downloader: ArchiveDownloader,
    base: &'static str,
    id: &str,
    token: &str,
    or: Option<String>,
    info: String,
    page: String,
    archiver: String,
    asked: String,
)
    requires
        call_ensures(ArchiverForm::new, (url, r), form),
        call_ensures(ArchiveResolution::form_fields, (&r,), fields),
        call_ensures(ArchiverForm::fields, (&form,), named),
        call_ensures(ArchiveDownloader::base_url, (&downloader,), base),
        call_ensures(ArchiveDownloader::archive_info_request, (&downloader, id, token), info),
        call_ensures(gallery_page_url, (base, id, token), page),
        call_ensures(ArchiveDownloader::archiver_request, (&downloader, id, token, &or), archiver),
        call_ensures(archiver_page_url, (base, id, token, &or), asked),
    ensures
        form.url == url,
        form.dltype@ == fields.0@ && form.dlcheck@ == fields.1@ && form.xres@ == fields.2@,
        named@.len() == 3,
        named@[0].0@ == "dltype"@ && named@[0].1@ == form.dltype@,
        named@[1].0@ == "dlcheck"@ && named@[1].1@ == form.dlcheck@,
        named@[2].0@ == "xres"@ && named@[2].1@ == form.xres@,
        info@ == page@,
        archiver@ == asked@,
{
}

/// A reply that is no success is a failed download; else the archive goes by its name made
/// safe, without spaces, and by a temporary one until it is complete.
pub proof fn law_downloads_are_received(
    downloader: ArchiveDownloader,
    success: bool,
    status: &str,
    header: Option<String>,
    id: &str,
    r: ArchiveResolution,
    names: Result<(String, String), ArchiveError>,
    name: String,
    plain: &str,
    safe: String,
)
    requires
        call_ensures(
            ArchiveDownloader::download_archive,
            (&downloader, success, status, &header, id, r),
            names,
        ),
        call_ensures(archive_filename, (&header, id, r), name),
        name@ == plain@,
        call_ensures(safe_filename, (plain, false), safe),
    ensures
        !success ==> (names matches Err(ArchiveError::DownloadFailed(m)) && m@ == "HTTP "@
            + status@),
        success ==> names is Ok && (names->Ok_0).0@ == safe@ && (names->Ok_0).1@ == "."@ + safe@
            + ".tmp"@,
{
}

/// Progress is noted at every full mebibyte and, of a download whose length is known, at
/// its end.
pub proof fn law_progress_is_noted(
    progress: &mut ArchiveProgress,
    bytes: u64,
    noted: Option<u64>,
    downloaded: u64,
    length: u64,
    end: bool,
    due: bool,
    fresh: ArchiveProgress,
)
    requires
        call_ensures(ArchiveProgress::chunk_written, (progress, bytes), noted),
        call_ensures(is_progress_due, (downloaded, length, end), due),
        call_ensures(ArchiveProgress::new, (length,), fresh),
    ensures
        old(progress).downloaded + bytes <= 0xffff_ffff_ffff_ffff ==> final(progress).downloaded
            == old(progress).downloaded + bytes,
        final(progress).content_length == old(progress).content_length,
        noted is Some <==> final(progress).downloaded % 1048576 == 0 || final(progress).downloaded
            == old(progress).content_length,
        noted is Some ==> noted->0 == final(progress).downloaded,
        due <==> downloaded % 1048576 == 0 || (end && downloaded == length),
        fresh.downloaded == 0 && fresh.content_length == length,
{
}

/// A queued download takes its steps in order: the gallery's page, the archiver's page that
/// a link there leads to, and the form, unless credits are wanting.
pub proof fn law_jobs_ask_for_archives(
    job: &mut ArchiveJob,
    second: &mut ArchiveJob,
    third: &mut ArchiveJob,
    html: &str,
    begun: ArchiveAction,
    linked: ArchiveAction,
    sent: ArchiveAction,
    link: Option<Vec<Option<String>>>,
    arrived: ArchiveAction,
    fourth: &mut ArchiveJob,
    fields: (&'static str, &'static str, &'static str),
)
    requires
        call_ensures(ArchiveJob::start, (job,), begun),
        call_ensures(ArchiveJob::gallery_arrived, (second, html), arrived),
        *old(second) == *old(fourth),
        call_ensures(ArchiveJob::gallery_link, (fourth, link), linked),
        web::optional_list(link) == web::regex_groups(
            r"archiver\.php\?gid=(\d+)&token=([a-f0-9]+)(?:&or=([a-z0-9]+))?"@,
            html@,
        ),
        call_ensures(ArchiveJob::archiver_arrived, (third, html), sent),
        call_ensures(ArchiveResolution::form_fields, (&old(third).resolution,), fields),
    ensures
        ({
            let base = if old(job).exhentai {
                "https://exhentai.org"@
            } else {
                "https://e-hentai.org"@
            };
            begun is FetchGallery && begun->FetchGallery_0@ == base + "/g/"@ + old(job).gallery_id@
                + "/"@ + old(job).gallery_token@ + "/"@
        }),
        final(job).stage == ArchiveStage::Gallery,
        ({
            let base = if old(fourth).exhentai {
                "https://exhentai.org"@
            } else {
                "https://e-hentai.org"@
            };
            let groups = link->0@;
            let id = if link is Some && groups.len() > 1 && groups[1] is Some {
                groups[1]->0@
            } else {
                old(fourth).gallery_id@
            };
            let token = if link is Some && groups.len() > 2 && groups[2] is Some {
                groups[2]->0@
            } else {
                old(fourth).gallery_token@
            };
            let plain = base + "/archiver.php?gid="@ + id + "&token="@ + token;
            linked is FetchArchiver && linked->FetchArchiver_0@ == (if link is Some && groups.len()
                > 3 && groups[3] is Some {
                plain + "&or="@ + groups[3]->0@
            } else {
                plain
            })
        }),
        final(fourth).archiver_url@ == linked->FetchArchiver_0@,
        arrived is FetchArchiver && arrived->FetchArchiver_0@ == linked->FetchArchiver_0@,
        final(fourth).stage == ArchiveStage::Archiver && final(second).stage
            == ArchiveStage::Archiver,
        text::contains(html@, "insufficient funds"@) || text::contains(html@, "not have enough"@)
            ==> {
            &&& sent is GiveUp && final(third).stage == ArchiveStage::Failed
            &&& sent->noted is Some && sent->noted->0@ == "Insufficient GP/Credits"@
            &&& sent->message@ == "Insufficient GP/Credits"@
        },
        !text::contains(html@, "insufficient funds"@) && !text::contains(html@, "not have enough"@)
            ==> {
            &&& sent is SendForm && final(third).stage == ArchiveStage::Form
            &&& sent->SendForm_0.url@ == old(third).archiver_url@
            &&& sent->SendForm_0.dltype@ == fields.0@ && sent->SendForm_0.dlcheck@ == fields.1@
                && sent->SendForm_0.xres@ == fields.2@
        },
{
    if link is Some {
        let groups = web::optional_texts(link->0@);
        assert(groups.len() == link->0@.len());
        assert(groups.len() > 1 ==> groups[1] == web::optional_text(link->0@[1]));
        assert(groups.len() > 2 ==> groups[2] == web::optional_text(link->0@[2]));
        assert(groups.len() > 3 ==> groups[3] == web::optional_text(link->0@[3]));
    }
}

/// The rest of its steps: the archive that the result page names, its name made safe, with
/// spaces, the chunks, each counted, and the end, with what was counted.
pub proof fn law_jobs_receive_archives(
    job: &mut ArchiveJob,
    second: &mut ArchiveJob,
    third: &mut ArchiveJob,
    fourth: &mut ArchiveJob,
    html: &str,
    named: ArchiveAction,
    base: &'static str,
    read: Result<String, String>,
    success: bool,
    status: &str,
    header: Option<String>,
    length: u64,
    begun: ArchiveAction,
    id: &str,
    name: String,
    plain: &str,
    safe: String,
    bytes: u64,
    noted: ArchiveAction,
    done: ArchiveAction,
)
    requires
        call_ensures(ArchiveJob::result_arrived, (job, html), named),
        call_ensures(site_of, (old(job).exhentai,), base),
        call_ensures(ArchiveDownloader::extract_download_url, (html, base), read),
        call_ensures(ArchiveJob::reply_arrived, (second, success, status, &header, length), begun),
        id@ == old(second).gallery_id@,
        call_ensures(archive_filename, (&header, id, old(second).resolution), name),
        name@ == plain@,
        call_ensures(safe_filename, (plain, true), safe),
        call_ensures(ArchiveJob::chunk_written, (third, bytes), noted),
        call_ensures(ArchiveJob::finish, (fourth,), done),
    ensures
        read matches Ok(url) ==> named is FetchArchive && named->FetchArchive_0@ == url@
            && final(job).stage == ArchiveStage::Archive,
        read matches Err(m) ==> named is GiveUp && named->noted is None && named->message@ == m@
            && final(job).stage == ArchiveStage::Failed,
        !success ==> {
            &&& begun is GiveUp && final(second).stage == ArchiveStage::Failed
            &&& begun->noted is Some && begun->noted->0@ == "HTTP "@ + status@
            &&& begun->message@ == "Download failed: HTTP "@ + status@
        },
        success ==> {
            &&& begun is Receive && final(second).stage == ArchiveStage::Receiving
            &&& begun->Receive_file_name@ == safe@ && begun->Receive_temporary@ == "."@ + safe@
                + ".tmp"@
            &&& length > 0 ==> begun->file_size == Some(length)
            &&& length == 0 ==> begun->file_size is None
            &&& final(second).file_name@ == safe@ && final(second).downloaded == 0
        },
        noted is Write,
        old(third).downloaded + bytes <= 0xffff_ffff_ffff_ffff ==> final(third).downloaded
            == old(third).downloaded + bytes,
        noted->progress is Some <==> final(third).downloaded % 1048576 == 0,
        noted->progress is Some ==> noted->progress->0 == final(third).downloaded,
        done is Complete && done->Complete_file_name@ == old(fourth).file_name@,
        done->Complete_temporary@ == "."@ + old(fourth).file_name@ + ".tmp"@,
        done->size == old(fourth).downloaded,
        final(fourth).stage == ArchiveStage::Completed,
{
}

/// Of the downloads listed, the first that is completed and has a file is offered.
pub proof fn law_first_completed_is_offered(
    statuses: Vec<ArchiveStatus>,
    file: Option<String>,
    i: int,
)
    requires
        call_ensures(completed_file, (&statuses,), file),
    ensures
        (forall|j: int|
            0 <= j < statuses@.len() ==> (#[trigger] statuses@[j]).status@ != "completed"@
                || statuses@[j].file_path is None) ==> file is None,
        0 <= i < statuses@.len() && statuses@[i].status@ == "completed"@ && statuses@[i].file_path
            is Some && (forall|j: int|
            0 <= j < i ==> (#[trigger] statuses@[j]).status@ != "completed"@
                || statuses@[j].file_path is None) ==> file is Some && file->0@
            == statuses@[i].file_path->0@,
{
    if forall|j: int|
        0 <= j < statuses@.len() ==> (#[trigger] statuses@[j]).status@ != "completed"@
            || statuses@[j].file_path is None {
        lemma_first_completed(statuses@, statuses@.len() as int);
    }
    if 0 <= i < statuses@.len() && statuses@[i].status@ == "completed"@ && statuses@[i].file_path
        is Some && (forall|j: int|
        0 <= j < i ==> (#[trigger] statuses@[j]).status@ != "completed"@ || statuses@[j].file_path
            is None) {
        lemma_first_completed(statuses@, i);
    }
}

proof fn lemma_first_completed(statuses: Seq<ArchiveStatus>, i: int)
    requires
        0 <= i <= statuses.len(),
        forall|j: int|
            0 <= j < i ==> (#[trigger] statuses[j]).status@ != "completed"@ || statuses[j].file_path
                is None,
        i < statuses.len() ==> statuses[i].status@ == "completed"@ && statuses[i].file_path is Some,
    ensures
        first_completed(statuses) == (if i < statuses.len() {
            Some(statuses[i].file_path->0@)
        } else {
            None
        }),
    decreases i,
{
    if i > 0 {
        let rest = statuses.drop_first();
        assert(statuses[0] == statuses.first());
        assert forall|j: int| 0 <= j < i - 1 implies (#[trigger] rest[j]).status@ != "completed"@
            || rest[j].file_path is None by {
            assert(rest[j] == statuses[j + 1]);
        }
        lemma_first_completed(rest, i - 1);
    }
}

/// The gallery and the token are the two groups of a match that has both.
pub proof fn law_galleries_are_matched(
    groups: Option<Vec<Option<String>>>,
    gallery: Option<(String, String)>,
    url: &str,
    read: Option<(String, String)>,
)
    requires
        call_ensures(gallery_from, (&groups,), gallery),
        call_ensures(ArchiveDownloader::parse_gallery_url, (url,), read),
    ensures
        gallery is Some <==> groups is Some && groups->0@.len() > 2 && groups->0@[1] is Some
            && groups->0@[2] is Some,
        gallery is Some ==> (gallery->0).0@ == groups->0@[1]->0@ && (gallery->0).1@
            == groups->0@[2]->0@,
        web::optional_list(groups) == web::regex_groups(
            r"(?:e-hentai|exhentai)\.org/g/(\d+)/([a-f0-9]+)"@,
            url@,
        ) ==> {
            &&& read is Some <==> gallery is Some
            &&& read is Some ==> (read->0).0@ == (gallery->0).0@ && (read->0).1@ == (
            gallery->0).1@
        },
{
    if groups is Some {
        let list = web::optional_texts(groups->0@);
        assert(list.len() == groups->0@.len());
        assert(list.len() > 1 ==> list[1] == web::optional_text(groups->0@[1]));
        assert(list.len() > 2 ==> list[2] == web::optional_text(groups->0@[2]));
    }
}

/// The errors in words.
pub proof fn law_archive_errors_are_told(e: ArchiveError, told: String)
    requires
        call_ensures(ArchiveError::message, (&e,), told),
    ensures
        e matches ArchiveError::Network(s) ==> told@ == "Network error: "@ + s@,
        e matches ArchiveError::Parse(s) ==> told@ == "Parse error: "@ + s@,
        e matches ArchiveError::NotFound(s) ==> told@ == "Gallery not found: "@ + s@,
        e is AccessDenied ==> told@ == "Access denied - login required"@,
        e is NotAvailable ==> told@ == "Archive not available"@,
        e is InsufficientCredits ==> told@ == "GP/Credits required for archive download"@,
        e is RateLimited ==> told@ == "Rate limited - please wait"@,
        e matches ArchiveError::DownloadFailed(s) ==> told@ == "Download failed: "@ + s@,
        e matches ArchiveError::Io(s) ==> told@ == "IO error: "@ + s@,
        e matches ArchiveError::Database(s) ==> told@ == "Database error: "@ + s@,
{
}

}
