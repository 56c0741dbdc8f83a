//! Gallery downloads: galleries are read page by page, and their images cached.
//!
//! Pages are fetched by the caller. What to ask for next, and what to make of the
//! answer, is decided here.

use crate::api;
use crate::archive;
use crate::config::Config;
use crate::text;
use crate::web;
use vstd::prelude::*;
use vstd::utf8::encode_utf8;

verus! {

/// The links of a gallery page to the pages of its images.
pub const IMAGE_LINKS: &'static str = "div.gdtm a, div.gdtl a";

/// The address of an image page, with its token, gallery and number.
pub const PAGE_LINK: &'static str = r"/s/([a-f0-9]+)/(\d+)-(\d+)";

/// The image of an image page.
pub const IMAGE: &'static str = "img#img";

/// The key that an image can be asked for again with.
pub const RELOAD_KEY: &'static str = r"nl\('([^']+)'\)";

/// How many images a gallery page shows.
pub const IMAGES_PER_PAGE: u32 = 40;

#[derive(Debug, Clone)]
pub enum GalleryError {
    Network(String),
    Parse(String),
    NotFound(String),
    AccessDenied,
    RateLimited,
    Database(String),
}

impl GalleryError {
    pub open spec fn message_text(&self) -> Seq<char> {
        match *self {
            GalleryError::Network(s) => "Network error: "@ + s@,
            GalleryError::Parse(s) => "Parse error: "@ + s@,
            GalleryError::NotFound(s) => "Gallery not found: "@ + s@,
            GalleryError::AccessDenied => "Access denied - login required"@,
            GalleryError::RateLimited => "Rate limited"@,
            GalleryError::Database(s) => "Database error: "@ + s@,
        }
    }

    /// The error in words.
    pub fn message(&self) -> (res: String)
        ensures
            res@ == self.message_text(),
    {
        match self {
            GalleryError::Network(s) => "Network error: ".to_string().concat(s.as_str()),
            GalleryError::Parse(s) => "Parse error: ".to_string().concat(s.as_str()),
            GalleryError::NotFound(s) => "Gallery not found: ".to_string().concat(s.as_str()),
            GalleryError::AccessDenied => "Access denied - login required".to_string(),
            GalleryError::RateLimited => "Rate limited".to_string(),
            GalleryError::Database(s) => "Database error: ".to_string().concat(s.as_str()),
        }
    }

    pub open spec fn is_not_found(&self, m: Seq<char>) -> bool {
        match *self {
            GalleryError::NotFound(s) => s@ == m,
            _ => false,
        }
    }

    pub open spec fn is_parse_error(&self, m: Seq<char>) -> bool {
        match *self {
            GalleryError::Parse(s) => s@ == m,
            _ => false,
        }
    }
}

#[derive(Debug, Clone)]
pub struct Gallery {
    pub gid: String,
    pub token: String,
    pub title: String,
    pub title_jpn: Option<String>,
    pub category: String,
    pub thumb: String,
    pub uploader: Option<String>,
    pub posted: String,
    pub filecount: u32,
    pub filesize: u64,
    pub tags: Vec<String>,
}

#[derive(Debug, Clone)]
pub struct GalleryImage {
    pub page_num: u32,
    pub url: String,
    pub file_hash: Option<String>,
    pub width: u32,
    pub height: u32,
}

#[derive(Debug, Clone)]
pub struct DownloadRequest {
    pub gallery_id: String,
    pub gallery_token: String,
    pub start_page: Option<u32>,
    pub end_page: Option<u32>,
    pub priority: u8,
}

#[derive(Debug, Clone, Copy, PartialEq, Eq, Structural)]
pub enum DownloadStatus {
    Pending,
    Downloading,
    Completed,
    Failed,
    Paused,
}

impl DownloadStatus {
    pub open spec fn name(&self) -> Seq<char> {
        match *self {
            DownloadStatus::Pending => "pending"@,
            DownloadStatus::Downloading => "downloading"@,
            DownloadStatus::Completed => "completed"@,
            DownloadStatus::Failed => "failed"@,
            DownloadStatus::Paused => "paused"@,
        }
    }

    /// The status as it is stored and shown.
    pub fn as_str(&self) -> (r: &'static str)
        ensures
            r@ == self.name(),
    {
        match self {
            DownloadStatus::Pending => "pending",
            DownloadStatus::Downloading => "downloading",
            DownloadStatus::Completed => "completed",
            DownloadStatus::Failed => "failed",
            DownloadStatus::Paused => "paused",
        }
    }
}

// ---------------------------------------------------------------------------
// Gallery metadata
// ---------------------------------------------------------------------------

/// What the reply of the gallery API says, as far as it says it.
pub struct GalleryFields {
    pub gid: Option<i64>,
    pub token: Option<String>,
    pub title: Option<String>,
    pub title_jpn: Option<String>,
    pub category: Option<String>,
    pub thumb: Option<String>,
    pub uploader: Option<String>,
    pub posted: Option<String>,
    pub filecount: Option<String>,
    pub filesize: Option<u64>,
    pub tags: Option<Vec<Option<String>>>,
}

#[verifier::ext_equal]
pub struct FieldsView {
    pub gid: Option<i64>,
    pub token: Option<Seq<char>>,
    pub title: Option<Seq<char>>,
    pub title_jpn: Option<Seq<char>>,
    pub category: Option<Seq<char>>,
    pub thumb: Option<Seq<char>>,
    pub uploader: Option<Seq<char>>,
    pub posted: Option<Seq<char>>,
    pub filecount: Option<Seq<char>>,
    pub filesize: Option<u64>,
    pub tags: Option<Seq<Option<Seq<char>>>>,
}

#[verifier::ext_equal]
pub struct GalleryView {
    pub gid: Seq<char>,
    pub token: Seq<char>,
    pub title: Seq<char>,
    pub title_jpn: Option<Seq<char>>,
    pub category: Seq<char>,
    pub thumb: Seq<char>,
    pub uploader: Option<Seq<char>>,
    pub posted: Seq<char>,
    pub filecount: u32,
    pub filesize: u64,
    pub tags: Seq<Seq<char>>,
}

impl View for GalleryFields {
    type V = FieldsView;

    open spec fn view(&self) -> FieldsView {
        FieldsView {
            gid: self.gid,
            token: web::optional_text(self.token),
            title: web::optional_text(self.title),
            title_jpn: web::optional_text(self.title_jpn),
            category: web::optional_text(self.category),
            thumb: web::optional_text(self.thumb),
            uploader: web::optional_text(self.uploader),
            posted: web::optional_text(self.posted),
            filecount: web::optional_text(self.filecount),
            filesize: self.filesize,
            tags: web::optional_list(self.tags),
        }
    }
}

impl View for Gallery {
    type V = GalleryView;

    open spec fn view(&self) -> GalleryView {
        GalleryView {
            gid: self.gid@,
            token: self.token@,
            title: self.title@,
            title_jpn: web::optional_text(self.title_jpn),
            category: self.category@,
            thumb: self.thumb@,
            uploader: web::optional_text(self.uploader),
            posted: self.posted@,
            filecount: self.filecount,
            filesize: self.filesize,
            tags: text::texts(self.tags@),
        }
    }
}

/// What is there of a list, in order.
pub open spec fn present(list: Seq<Option<Seq<char>>>) -> Seq<Seq<char>>
    decreases list.len(),
{
    if list.len() == 0 {
        Seq::empty()
    } else {
        match list.last() {
            Some(s) => present(list.drop_last()).push(s),
            None => present(list.drop_last()),
        }
    }
}

/// A count that is written as a text; 0 where there is none.
pub open spec fn count_of(s: Option<Seq<char>>) -> u32 {
    api::unsigned_param(s, u32::MAX as int, 0, 0) as u32
}

/// The gallery that the fields describe. A number that is missing is 0, a text
/// that has to be there empty.
pub open spec fn described(f: FieldsView) -> GalleryView {
    let empty = Seq::<char>::empty();
    GalleryView {
        gid: text::decimal_int(
            match f.gid {
                Some(n) => n as int,
                None => 0,
            },
        ),
        token: api::text_param(f.token, empty),
        title: api::text_param(f.title, empty),
        title_jpn: f.title_jpn,
        category: api::text_param(f.category, empty),
        thumb: api::text_param(f.thumb, empty),
        uploader: f.uploader,
        posted: api::text_param(f.posted, empty),
        filecount: count_of(f.filecount),
        filesize: match f.filesize {
            Some(n) => n,
            None => 0,
        },
        tags: match f.tags {
            Some(list) => present(list),
            None => Seq::empty(),
        },
    }
}

/// The fields of the first gallery in a reply of the gallery API.
pub open spec fn reply_fields(body: Seq<u8>) -> FieldsView {
    FieldsView {
        gid: web::json_signed(body, "/gmetadata/0/gid"@),
        token: web::json_string(body, "/gmetadata/0/token"@),
        title: web::json_string(body, "/gmetadata/0/title"@),
        title_jpn: web::json_string(body, "/gmetadata/0/title_jpn"@),
        category: web::json_string(body, "/gmetadata/0/category"@),
        thumb: web::json_string(body, "/gmetadata/0/thumb"@),
        uploader: web::json_string(body, "/gmetadata/0/uploader"@),
        posted: web::json_string(body, "/gmetadata/0/posted"@),
        filecount: web::json_string(body, "/gmetadata/0/filecount"@),
        filesize: web::json_unsigned(body, "/gmetadata/0/filesize"@),
        tags: web::json_strings(body, "/gmetadata/0/tags"@),
    }
}

/// The reply describes a gallery.
pub open spec fn has_gallery(body: Seq<u8>) -> bool {
    match web::json_array_length(body, "/gmetadata"@) {
        Some(n) => n > 0,
        None => false,
    }
}

fn text_or_empty(o: Option<String>) -> (r: String)
    ensures
        r@ == api::text_param(web::optional_text(o), Seq::empty()),
{
    match o {
        Some(s) => s,
        None => String::new(),
    }
}

fn present_of(list: &Vec<Option<String>>) -> (r: Vec<String>)
    ensures
        text::texts(r@) == present(web::optional_texts(list@)),
{
    let ghost all = web::optional_texts(list@);
    let mut r: Vec<String> = Vec::new();
    let mut i: usize = 0;
    proof {
        assert(text::texts(r@) =~= present(all.take(0)));
    }
    while i < list.len()
        invariant
            i <= list.len(),
            all == web::optional_texts(list@),
            text::texts(r@) == present(all.take(i as int)),
        decreases list.len() - i,
    {
        let ghost before = text::texts(r@);
        proof {
            assert(all.take(i + 1).drop_last() =~= all.take(i as int));
            assert(all.take(i + 1).last() == web::optional_text(list@[i as int]));
        }
        if let Some(s) = &list[i] {
            r.push(s.clone());
            proof {
                assert(text::texts(r@) =~= before.push(s@));
            }
        }
        i = i + 1;
    }
    proof {
        assert(all.take(i as int) =~= all);
    }
    r
}

fn small_count(o: &Option<String>) -> (n: u32)
    ensures
        n == count_of(web::optional_text(*o)),
{
    match o {
        Some(s) => match text::parse_unsigned(s.as_str(), u32::MAX as u64) {
            Some(n) => n as u32,
            None => 0,
        },
        None => 0,
    }
}

/// The gallery that the fields describe.
pub fn gallery_from(fields: GalleryFields) -> (r: Gallery)
    ensures
        r@ == described(fields@),
{
    let gid: i64 = match fields.gid {
        Some(n) => n,
        None => 0,
    };
    let tags = match &fields.tags {
        Some(list) => present_of(list),
        None => Vec::new(),
    };
    let filecount: u32 = small_count(&fields.filecount);
    let r = Gallery {
        gid: text::decimal_of_int(gid),
        token: text_or_empty(fields.token),
        title: text_or_empty(fields.title),
        title_jpn: fields.title_jpn,
        category: text_or_empty(fields.category),
        thumb: text_or_empty(fields.thumb),
        uploader: fields.uploader,
        posted: text_or_empty(fields.posted),
        filecount,
        filesize: match fields.filesize {
            Some(n) => n,
            None => 0,
        },
        tags,
    };
    proof {
        assert(r@.tags =~= described(fields@).tags);
    }
    r
}

fn read_fields(body: &[u8]) -> (r: GalleryFields)
    ensures
        r@ == reply_fields(body@),
{
    GalleryFields {
        gid: web::json_signed_at(body, "/gmetadata/0/gid"),
        token: web::json_string_at(body, "/gmetadata/0/token"),
        title: web::json_string_at(body, "/gmetadata/0/title"),
        title_jpn: web::json_string_at(body, "/gmetadata/0/title_jpn"),
        category: web::json_string_at(body, "/gmetadata/0/category"),
        thumb: web::json_string_at(body, "/gmetadata/0/thumb"),
        uploader: web::json_string_at(body, "/gmetadata/0/uploader"),
        posted: web::json_string_at(body, "/gmetadata/0/posted"),
        filecount: web::json_string_at(body, "/gmetadata/0/filecount"),
        filesize: web::json_unsigned_at(body, "/gmetadata/0/filesize"),
        tags: web::json_strings_at(body, "/gmetadata/0/tags"),
    }
}

fn describes_gallery(body: &[u8]) -> (r: bool)
    ensures
        r == has_gallery(body@),
{
    match web::json_array_length_at(body, "/gmetadata") {
        Some(n) => n > 0,
        None => false,
    }
}

/// The number that the gallery API is asked for; 0 where the text is none.
pub open spec fn gallery_number(gallery_id: Seq<char>) -> int {
    api::number_param(Some(gallery_id), i64::MIN as int, i64::MAX as int, 0, 0)
}

pub fn gallery_number_of(gallery_id: &str) -> (n: i64)
    ensures
        n == gallery_number(gallery_id@),
{
    match text::parse_signed(gallery_id, i64::MIN, i64::MAX) {
        Some(n) => n,
        None => 0,
    }
}

// ---------------------------------------------------------------------------
// Gallery pages
// ---------------------------------------------------------------------------

#[verifier::ext_equal]
pub struct ImageView {
    pub page_num: u32,
    pub url: Seq<char>,
    pub file_hash: Option<Seq<char>>,
    pub width: u32,
    pub height: u32,
}

impl View for GalleryImage {
    type V = ImageView;

    open spec fn view(&self) -> ImageView {
        ImageView {
            page_num: self.page_num,
            url: self.url@,
            file_hash: web::optional_text(self.file_hash),
            width: self.width,
            height: self.height,
        }
    }
}

/// The number of an image page, where its address says it.
pub open spec fn page_number(link: Option<Seq<Option<Seq<char>>>>) -> Option<int> {
    match web::captured(link, 3) {
        Some(s) => text::parsed_unsigned(s, u32::MAX as int),
        None => None,
    }
}

/// The image that the `i`th link of a page leads to, from what the pattern of
/// image pages finds in it. Without a number in the address its place counts.
pub open spec fn linked_image(
    href: Seq<char>,
    link: Option<Seq<Option<Seq<char>>>>,
    i: int,
) -> Option<ImageView> {
    if link is None {
        None
    } else {
        Some(
            ImageView {
                page_num: match page_number(link) {
                    Some(n) => n as u32,
                    None => (i as u32).wrapping_add(1),
                },
                url: href,
                file_hash: Some(api::text_param(web::captured(link, 1), Seq::empty())),
                width: 0,
                height: 0,
            },
        )
    }
}

/// The images that the links of a page lead to, in order.
pub open spec fn linked_images(hrefs: Seq<Option<Seq<char>>>) -> Seq<ImageView>
    decreases hrefs.len(),
{
    if hrefs.len() == 0 {
        Seq::empty()
    } else {
        let rest = linked_images(hrefs.drop_last());
        match hrefs.last() {
            Some(href) => match linked_image(
                href,
                web::regex_groups(PAGE_LINK@, href),
                hrefs.len() - 1,
            ) {
                Some(image) => rest.push(image),
                None => rest,
            },
            None => rest,
        }
    }
}

/// An image page in the range asked for.
pub open spec fn wanted_page(
    href: Seq<char>,
    link: Option<Seq<Option<Seq<char>>>>,
    first: u32,
    last: u32,
) -> Option<(u32, Seq<char>)> {
    match page_number(link) {
        Some(n) => if first <= n <= last {
            Some((n as u32, href))
        } else {
            None
        },
        None => None,
    }
}

/// The image pages in the range asked for that the links lead to, in order.
pub open spec fn wanted_pages(hrefs: Seq<Option<Seq<char>>>, first: u32, last: u32) -> Seq<
    (u32, Seq<char>),
>
    decreases hrefs.len(),
{
    if hrefs.len() == 0 {
        Seq::empty()
    } else {
        let rest = wanted_pages(hrefs.drop_last(), first, last);
        match hrefs.last() {
            Some(href) => match wanted_page(
                href,
                web::regex_groups(PAGE_LINK@, href),
                first,
                last,
            ) {
                Some(page) => rest.push(page),
                None => rest,
            },
            None => rest,
        }
    }
}

pub open spec fn page_views(pages: Seq<(u32, String)>) -> Seq<(u32, Seq<char>)> {
    pages.map_values(|p: (u32, String)| (p.0, p.1@))
}

pub open spec fn image_views(images: Seq<GalleryImage>) -> Seq<ImageView> {
    images.map_values(|i: GalleryImage| i@)
}

fn number_in(link: &Option<Vec<Option<String>>>) -> (r: Option<u32>)
    ensures
        match r {
            Some(n) => page_number(web::optional_list(*link)) == Some(n as int),
            None => page_number(web::optional_list(*link)) is None,
        },
{
    match web::captured_group(link, 3) {
        Some(s) => match text::parse_unsigned(s.as_str(), u32::MAX as u64) {
            Some(n) => Some(n as u32),
            None => None,
        },
        None => None,
    }
}

/// The image that the `i`th link of a page leads to.
pub fn image_from(href: &str, link: &Option<Vec<Option<String>>>, i: usize) -> (r: Option<
    GalleryImage,
>)
    ensures
        match r {
            Some(image) => linked_image(href@, web::optional_list(*link), i as int) == Some(image@),
            None => linked_image(href@, web::optional_list(*link), i as int) is None,
        },
{
    if link.is_none() {
        return None;
    }
    let page_num: u32 = match number_in(link) {
        Some(n) => n,
        None => (#[verifier::truncate] (i as u32)).wrapping_add(1),
    };
    let token = text_or_empty(web::captured_group(link, 1));
    Some(
        GalleryImage {
            page_num,
            url: href.to_string(),
            file_hash: Some(token),
            width: 0,
            height: 0,
        },
    )
}

/// An image page in the range asked for.
pub fn page_from(href: &str, link: &Option<Vec<Option<String>>>, first: u32, last: u32) -> (r:
    Option<(u32, String)>)
    ensures
        match r {
            Some(page) => wanted_page(href@, web::optional_list(*link), first, last) == Some(
                (page.0, page.1@),
            ),
            None => wanted_page(href@, web::optional_list(*link), first, last) is None,
        },
{
    match number_in(link) {
        Some(n) => if first <= n && n <= last {
            Some((n, href.to_string()))
        } else {
            None
        },
        None => None,
    }
}

/// The image pages in the range asked for that a page links to.
pub fn pages_from(hrefs: &Vec<Option<String>>, first: u32, last: u32) -> (r: Vec<(u32, String)>)
    ensures
        page_views(r@) == wanted_pages(web::optional_texts(hrefs@), first, last),
{
    let ghost all = web::optional_texts(hrefs@);
    let mut r: Vec<(u32, String)> = Vec::new();
    let mut i: usize = 0;
    proof {
        assert(page_views(r@) =~= wanted_pages(all.take(0), first, last));
    }
    while i < hrefs.len()
        invariant
            i <= hrefs.len(),
            all == web::optional_texts(hrefs@),
            page_views(r@) == wanted_pages(all.take(i as int), first, last),
        decreases hrefs.len() - i,
    {
        let ghost before = page_views(r@);
        proof {
            assert(all.take(i + 1).drop_last() =~= all.take(i as int));
            assert(all.take(i + 1).last() == web::optional_text(hrefs@[i as int]));
        }
        if let Some(href) = &hrefs[i] {
            let link = web::regex_captures(PAGE_LINK, href.as_str());
            if let Some(page) = page_from(href.as_str(), &link, first, last) {
                r.push(page);
                proof {
                    assert(page_views(r@) =~= before.push((page.0, page.1@)));
                }
            }
        }
        i = i + 1;
    }
    proof {
        assert(all.take(i as int) =~= all);
    }
    r
}

/// Where the image of an image page is: the image itself or, where the page has
/// none, the page asked for again with its key.
pub open spec fn image_location(
    page_url: Seq<char>,
    src: Option<Seq<char>>,
    key: Option<Seq<char>>,
) -> Option<Seq<char>> {
    if src is Some {
        src
    } else {
        match key {
            Some(k) => Some(page_url + "?nl="@ + k),
            None => None,
        }
    }
}

/// Where the image of an image page is, from what was found on the page.
pub fn locate_image(page_url: &str, src: Option<String>, key: Option<String>) -> (r: Result<
    String,
    GalleryError,
>)
    ensures
        match r {
            Ok(url) => image_location(
                page_url@,
                web::optional_text(src),
                web::optional_text(key),
            ) == Some(url@),
            Err(e) => {
                &&& image_location(page_url@, web::optional_text(src), web::optional_text(key)) is None
                &&& e.is_parse_error("Could not find image URL"@)
            },
        },
{
    if let Some(url) = src {
        return Ok(url);
    }
    if let Some(k) = key {
        let mut url = page_url.to_string();
        url.append("?nl=");
        url.append(k.as_str());
        return Ok(url);
    }
    Err(GalleryError::Parse("Could not find image URL".to_string()))
}

/// The source of the image on an image page.
pub open spec fn image_source(html: Seq<char>) -> Option<Seq<char>> {
    archive::first_attribute(web::selected_attributes(html, IMAGE@, "src"@))
}

fn image_source_of(html: &str) -> (r: Option<String>)
    requires
        web::is_readable(html@),
    ensures
        web::optional_text(r) == image_source(html@),
{
    let picked = web::select_attributes(html, IMAGE, "src");
    archive::first_picked(&picked)
}

/// The type of an image, by its address.
pub open spec fn type_of_image(src: Seq<char>) -> Seq<char> {
    if text::contains(src, ".png"@) {
        "png"@
    } else if text::contains(src, ".gif"@) {
        "gif"@
    } else {
        "jpg"@
    }
}

pub fn image_type(src: &str) -> (r: &'static str)
    ensures
        r@ == type_of_image(src@),
{
    if text::has_substring(src, ".png") {
        "png"
    } else if text::has_substring(src, ".gif") {
        "gif"
    } else {
        "jpg"
    }
}

// ---------------------------------------------------------------------------
// The downloader
// ---------------------------------------------------------------------------

/// Reads galleries.
pub struct GalleryDownloader {
    pub config: Config,
    /// Keys of the galleries that are being downloaded.
    pub active_downloads: Vec<String>,
}

impl GalleryDownloader {
    pub open spec fn base(&self) -> Seq<char> {
        archive::site(self.config.exhentai_cookies is Some)
    }

    pub fn new(config: Config) -> (r: Self)
        ensures
            r.config == config,
            r.active_downloads@.len() == 0,
    {
        GalleryDownloader { config, active_downloads: Vec::new() }
    }

    /// Whether a gallery is to be queued, and not one that is being downloaded.
    pub fn queue_gallery(&self, request: &DownloadRequest) -> (r: bool)
        ensures
            r == !text::texts(self.active_downloads@).contains(
                request.gallery_id@ + "_"@ + request.gallery_token@,
            ),
    {
        let mut key = request.gallery_id.clone();
        key.append("_");
        key.append(request.gallery_token.as_str());
        !text::is_listed(&self.active_downloads, key.as_str())
    }

    /// The address of the gallery API.
    pub fn api_url(&self) -> (r: String)
        ensures
            r@ == self.config.gallery_api@ + "/api.php"@,
    {
        self.config.gallery_api.clone().concat("/api.php")
    }

    /// Read the reply of the gallery API; `forbidden` where it refused to answer.
    pub fn fetch_gallery_info(&self, gallery_id: &str, forbidden: bool, body: &[u8]) -> (r: Result<
        Gallery,
        GalleryError,
    >)
        ensures
            forbidden ==> r == Err::<Gallery, GalleryError>(GalleryError::AccessDenied),
            !forbidden && !web::is_json(body@) ==> r is Err && r->Err_0 is Network
                && r->Err_0->Network_0@ == "error decoding response body"@,
            !forbidden && web::is_json(body@) && !has_gallery(body@) ==> r is Err
                && r->Err_0.is_not_found(gallery_id@),
            !forbidden && web::is_json(body@) && has_gallery(body@) ==> r is Ok && r->Ok_0@
                == described(reply_fields(body@)),
    {
        if forbidden {
            return Err(GalleryError::AccessDenied);
        }
        if !web::json_is_valid(body) {
            return Err(GalleryError::Network("error decoding response body".to_string()));
        }
        if !describes_gallery(body) {
            return Err(GalleryError::NotFound(gallery_id.to_string()));
        }
        Ok(gallery_from(read_fields(body)))
    }

    /// The address of one of the pages of a gallery.
    pub fn gallery_pages_request(&self, gallery_id: &str, gallery_token: &str, page: u32) -> (url:
        String)
        ensures
            url@ == gallery_subpage(self.base(), gallery_id@, gallery_token@, page),
    {
        gallery_subpage_url(
            archive::site_of(self.config.has_exhentai_access()),
            gallery_id,
            gallery_token,
            page,
        )
    }

    /// Read the images that a gallery page links to; `refused` where there was no
    /// such page. A very short page is one that hides the gallery.
    pub fn fetch_gallery_pages(&self, gallery_id: &str, refused: bool, html: &str) -> (r: Result<
        Vec<GalleryImage>,
        GalleryError,
    >)
        requires
            !refused && !text::contains(html@, "Your IP address has been"@) ==> web::is_readable(
                html@,
            ),
        ensures
            refused ==> r is Err && r->Err_0.is_not_found(gallery_id@),
            !refused && (text::contains(html@, "Your IP address has been"@) || text::byte_len(html@)
                < 1000) ==> r == Err::<Vec<GalleryImage>, GalleryError>(GalleryError::AccessDenied),
            !refused && !text::contains(html@, "Your IP address has been"@) && text::byte_len(html@)
                >= 1000 ==> match web::selected_attributes(html@, IMAGE_LINKS@, "href"@) {
                Some(hrefs) => r is Ok && image_views(r->Ok_0@) == linked_images(hrefs),
                None => r is Err && r->Err_0.is_parse_error("Invalid selector"@),
            },
    {
        if refused {
            return Err(GalleryError::NotFound(gallery_id.to_string()));
        }
        if text::has_substring(html, "Your IP address has been") || text::byte_length(html) < 1000 {
            return Err(GalleryError::AccessDenied);
        }
        match web::select_attributes(html, IMAGE_LINKS, "href") {
            Some(hrefs) => Ok(images_from(&hrefs)),
            None => Err(GalleryError::Parse("Invalid selector".to_string())),
        }
    }

    /// Read an image page: where its image is; `limited` where the site refused to
    /// show more images.
    pub fn fetch_image_url(&self, page_url: &str, limited: bool, html: &str) -> (r: Result<
        String,
        GalleryError,
    >)
        requires
            !limited ==> web::is_readable(html@),
        ensures
            limited ==> r == Err::<String, GalleryError>(GalleryError::RateLimited),
            !limited ==> {
                let location = image_location(
                    page_url@,
                    image_source(html@),
                    web::captured(web::regex_groups(RELOAD_KEY@, html@), 1),
                );
                match r {
                    Ok(url) => location == Some(url@),
                    Err(e) => location is None && e.is_parse_error("Could not find image URL"@),
                }
            },
    {
        if limited {
            return Err(GalleryError::RateLimited);
        }
        let src = image_source_of(html);
        let reload = web::regex_captures(RELOAD_KEY, html);
        locate_image(page_url, src, web::captured_group(&reload, 1))
    }

    /// Parse a gallery URL to extract its number and token.
    pub fn parse_gallery_url(url: &str) -> (r: Option<(String, String)>)
        ensures
            archive::pair_views(r) == archive::gallery_of(
                web::regex_groups(web::GALLERY_LINK@, url@),
            ),
            forall|exhentai: bool, id: Seq<char>, token: Seq<char>, rest: Seq<char>| #[trigger]
                web::is_gallery_address(url@, exhentai, id, token, rest) ==> archive::pair_views(r)
                    == Some((id, token)),
    {
        let groups = web::regex_captures(web::GALLERY_LINK, url);
        archive::gallery_from(&groups)
    }
}

/// One of the pages of a gallery.
pub open spec fn gallery_subpage(
    base: Seq<char>,
    id: Seq<char>,
    token: Seq<char>,
    page: u32,
) -> Seq<char> {
    archive::gallery_page(base, id, token) + "?p="@ + text::decimal(page as nat)
}

fn gallery_subpage_url(base: &str, id: &str, token: &str, page: u32) -> (r: String)
    ensures
        r@ == gallery_subpage(base@, id@, token@, page),
{
    let mut url = archive::gallery_page_url(base, id, token);
    url.append("?p=");
    url.append(text::decimal_of(page as u64).as_str());
    url
}

/// The images that the links of a page lead to.
pub fn images_from(hrefs: &Vec<Option<String>>) -> (r: Vec<GalleryImage>)
    ensures
        image_views(r@) == linked_images(web::optional_texts(hrefs@)),
{
    let ghost all = web::optional_texts(hrefs@);
    let mut r: Vec<GalleryImage> = Vec::new();
    let mut i: usize = 0;
    proof {
        assert(image_views(r@) =~= linked_images(all.take(0)));
    }
    while i < hrefs.len()
        invariant
            i <= hrefs.len(),
            all == web::optional_texts(hrefs@),
            image_views(r@) == linked_images(all.take(i as int)),
        decreases hrefs.len() - i,
    {
        let ghost before = image_views(r@);
        proof {
            assert(all.take(i + 1).drop_last() =~= all.take(i as int));
            assert(all.take(i + 1).last() == web::optional_text(hrefs@[i as int]));
        }
        if let Some(href) = &hrefs[i] {
            let link = web::regex_captures(PAGE_LINK, href.as_str());
            if let Some(image) = image_from(href.as_str(), &link, i) {
                r.push(image);
                proof {
                    assert(image_views(r@) =~= before.push(image@));
                }
            }
        }
        i = i + 1;
    }
    proof {
        assert(all.take(i as int) =~= all);
    }
    r
}

// ---------------------------------------------------------------------------
// A queued download
// ---------------------------------------------------------------------------

/// A gallery that is being downloaded: the range of its images, the page of the
/// gallery that is next, and the image pages that are left of the one before.
pub struct GalleryJob {
    pub gallery_id: String,
    pub gallery_token: String,
    pub exhentai: bool,
    pub start_page: Option<u32>,
    pub end_page: Option<u32>,
    /// The first and the last image to download.
    pub first: u32,
    pub last: u32,
    /// The gallery pages to fetch are those from `next_page` up to, and without,
    /// `pages`.
    pub pages: u32,
    pub next_page: u32,
    /// Image pages to fetch, the next one last.
    pub images: Vec<(u32, String)>,
    /// Images downloaded.
    pub downloaded: u32,
}

/// The title and the number of images that a reply gives a gallery.
pub open spec fn title_and_count(body: Seq<u8>) -> Result<(Seq<char>, u32), InfoFault> {
    if !web::is_json(body) {
        Err(InfoFault::Undecodable)
    } else if !has_gallery(body) {
        Err(InfoFault::NoMetadata)
    } else {
        Ok(
            (
                api::text_param(web::json_string(body, "/gmetadata/0/title"@), "Unknown"@),
                count_of(web::json_string(body, "/gmetadata/0/filecount"@)),
            ),
        )
    }
}

/// The gallery page, counted from zero, that shows the image with this number, counted
/// from one.
pub open spec fn page_of(image: int) -> int {
    if image < 1 {
        0
    } else {
        (image - 1) / IMAGES_PER_PAGE as int
    }
}

fn page_of_image(image: u32) -> (page: u32)
    ensures
        page == page_of(image as int),
        page < u32::MAX,
{
    if image < 1 {
        0
    } else {
        (image - 1) / IMAGES_PER_PAGE
    }
}

/// A gallery page shows this image.
pub open spec fn shows(page: int, image: int) -> bool {
    page * IMAGES_PER_PAGE < image <= (page + 1) * IMAGES_PER_PAGE
}

/// A gallery page shows an image of this range.
pub open spec fn shows_some(page: int, first: int, last: int) -> bool {
    exists|image: int| first <= image <= last && #[trigger] shows(page, image)
}

/// Why the reply of the gallery API does not describe a gallery.
#[derive(Debug, Clone, Copy, PartialEq, Eq, Structural)]
pub enum InfoFault {
    /// It is no JSON document.
    Undecodable,
    /// It holds no gallery.
    NoMetadata,
}

impl InfoFault {
    pub open spec fn message_text(&self) -> Seq<char> {
        match *self {
            InfoFault::Undecodable => "error decoding response body"@,
            InfoFault::NoMetadata => "Gallery metadata not found"@,
        }
    }

    /// The fault in words.
    pub fn message(&self) -> (r: &'static str)
        ensures
            r@ == self.message_text(),
    {
        match self {
            InfoFault::Undecodable => "error decoding response body",
            InfoFault::NoMetadata => "Gallery metadata not found",
        }
    }
}

impl GalleryJob {
    pub open spec fn base(&self) -> Seq<char> {
        archive::site(self.exhentai)
    }

    /// The image pages to fetch, in order.
    pub open spec fn images_left(&self) -> Seq<(u32, Seq<char>)> {
        page_views(self.images@).reverse()
    }

    /// A gallery that is to be downloaded.
    pub fn new(request: DownloadRequest, exhentai: bool) -> (r: Self)
        ensures
            r.gallery_id == request.gallery_id,
            r.gallery_token == request.gallery_token,
            r.exhentai == exhentai,
            r.start_page == request.start_page,
            r.end_page == request.end_page,
            r.pages == 0,
            r.next_page == 0,
            r.images_left() == Seq::<(u32, Seq<char>)>::empty(),
            r.downloaded == 0,
    {
        let r = GalleryJob {
            gallery_id: request.gallery_id,
            gallery_token: request.gallery_token,
            exhentai,
            start_page: request.start_page,
            end_page: request.end_page,
            first: 0,
            last: 0,
            pages: 0,
            next_page: 0,
            images: Vec::new(),
            downloaded: 0,
        };
        proof {
            assert(r.images_left() =~= Seq::<(u32, Seq<char>)>::empty());
        }
        r
    }

    /// The gallery has `filecount` images: all of them are to be downloaded, but
    /// for what the request says.
    pub fn set_count(&mut self, filecount: u32)
        ensures
            *final(self) == (GalleryJob {
                first: match old(self).start_page {
                    Some(n) => n,
                    None => 1,
                },
                last: match old(self).end_page {
                    Some(n) => n,
                    None => filecount,
                },
                ..*old(self)
            }),
    {
        self.first = match self.start_page {
            Some(n) => n,
            None => 1,
        };
        self.last = match self.end_page {
            Some(n) => n,
            None => filecount,
        };
    }

    /// The reply of the gallery API has arrived: the title and the number of
    /// images to note, where it describes a gallery.
    pub fn info_arrived(&mut self, body: &[u8]) -> (r: Result<(String, u32), InfoFault>)
        ensures
            match title_and_count(body@) {
                Ok((title, count)) => {
                    &&& r matches Ok(found)
                    &&& found.0@ == title
                    &&& found.1 == count
                    &&& *final(self) == (GalleryJob {
                        first: match old(self).start_page {
                            Some(n) => n,
                            None => 1,
                        },
                        last: match old(self).end_page {
                            Some(n) => n,
                            None => count,
                        },
                        ..*old(self)
                    })
                },
                Err(fault) => {
                    &&& r matches Err(e)
                    &&& e == fault
                    &&& *final(self) == *old(self)
                },
            },
    {
        if !web::json_is_valid(body) {
            return Err(InfoFault::Undecodable);
        }
        if !describes_gallery(body) {
            return Err(InfoFault::NoMetadata);
        }
        let title = match web::json_string_at(body, "/gmetadata/0/title") {
            Some(s) => s,
            None => "Unknown".to_string(),
        };
        let filecount: u32 = small_count(&web::json_string_at(body, "/gmetadata/0/filecount"));
        self.set_count(filecount);
        Ok((title, filecount))
    }

    /// Whether there is an image in the range.
    pub fn has_range(&self) -> (r: bool)
        ensures
            r == (self.first <= self.last),
    {
        self.first <= self.last
    }

    /// Plan the gallery pages to fetch: from the one that shows the first image of the
    /// range to the one that shows the last.
    pub fn plan(&mut self)
        requires
            old(self).first <= old(self).last,
        ensures
            *final(self) == (GalleryJob {
                pages: (page_of(old(self).last as int) + 1) as u32,
                next_page: page_of(old(self).first as int) as u32,
                ..*old(self)
            }),
            final(self).pages == page_of(old(self).last as int) + 1,
            final(self).next_page == page_of(old(self).first as int),
            final(self).next_page < final(self).pages,
    {
        self.pages = page_of_image(self.last) + 1;
        self.next_page = page_of_image(self.first);
        proof {
            let (first, last) = (self.first as int, self.last as int);
            assert(page_of(first) <= page_of(last));
        }
    }

    /// The next gallery page to fetch, where one is left.
    pub fn next_gallery_page(&mut self) -> (r: Option<String>)
        ensures
            match r {
                Some(url) => {
                    &&& old(self).next_page < old(self).pages
                    &&& url@ == gallery_subpage(
                        old(self).base(),
                        old(self).gallery_id@,
                        old(self).gallery_token@,
                        old(self).next_page,
                    )
                    &&& *final(self) == (GalleryJob {
                        next_page: (old(self).next_page + 1) as u32,
                        ..*old(self)
                    })
                },
                None => old(self).next_page >= old(self).pages && *final(self) == *old(self),
            },
    {
        if self.next_page >= self.pages {
            return None;
        }
        let url = gallery_subpage_url(
            archive::site_of(self.exhentai),
            self.gallery_id.as_str(),
            self.gallery_token.as_str(),
            self.next_page,
        );
        self.next_page = self.next_page + 1;
        Some(url)
    }

    /// The links of a gallery page lead to image pages.
    pub fn links_arrived(&mut self, hrefs: &Vec<Option<String>>)
        ensures
            final(self).images_left() == wanted_pages(
                web::optional_texts(hrefs@),
                old(self).first,
                old(self).last,
            ),
            *final(self) == (GalleryJob { images: final(self).images, ..*old(self) }),
    {
        let pages = pages_from(hrefs, self.first, self.last);
        let mut images: Vec<(u32, String)> = Vec::new();
        let mut i: usize = pages.len();
        while i > 0
            invariant
                i <= pages.len(),
                images.len() == pages.len() - i,
                forall|j: int|
                    0 <= j < images.len() ==> (#[trigger] images@[j]).0 == pages@[pages.len() - 1
                        - j].0 && images@[j].1@ == pages@[pages.len() - 1 - j].1@,
            decreases i,
        {
            i = i - 1;
            images.push((pages[i].0, pages[i].1.clone()));
        }
        self.images = images;
        proof {
            assert(self.images_left() =~= page_views(pages@));
        }
    }

    /// A gallery page has arrived.
    pub fn gallery_page_arrived(&mut self, html: &str)
        requires
            web::is_readable(html@),
        ensures
            final(self).images_left() == match web::selected_attributes(
                html@,
                IMAGE_LINKS@,
                "href"@,
            ) {
                Some(hrefs) => wanted_pages(hrefs, old(self).first, old(self).last),
                None => Seq::empty(),
            },
            *final(self) == (GalleryJob { images: final(self).images, ..*old(self) }),
    {
        match web::select_attributes(html, IMAGE_LINKS, "href") {
            Some(hrefs) => {
                self.links_arrived(&hrefs);
            },
            None => {
                self.images = Vec::new();
                proof {
                    assert(self.images_left() =~= Seq::<(u32, Seq<char>)>::empty());
                }
            },
        }
    }

    /// The next image page to fetch, where one is left of the gallery page.
    pub fn next_image_page(&mut self) -> (r: Option<(u32, String)>)
        ensures
            match r {
                Some(page) => {
                    &&& old(self).images_left().len() > 0
                    &&& (page.0, page.1@) == old(self).images_left().first()
                    &&& final(self).images_left() == old(self).images_left().drop_first()
                },
                None => {
                    &&& old(self).images_left().len() == 0
                    &&& final(self).images_left() == old(self).images_left()
                },
            },
            *final(self) == (GalleryJob { images: final(self).images, ..*old(self) }),
    {
        let r = self.images.pop();
        proof {
            assert(self.images_left() =~= if r is Some {
                old(self).images_left().drop_first()
            } else {
                old(self).images_left()
            });
        }
        r
    }

    /// An image page has arrived: where its image is, and of what type it is.
    pub fn image_page_arrived(&self, html: &str) -> (r: Option<(String, &'static str)>)
        requires
            web::is_readable(html@),
        ensures
            match r {
                Some((src, kind)) => {
                    &&& image_source(html@) == Some(src@)
                    &&& kind@ == type_of_image(src@)
                },
                None => image_source(html@) is None,
            },
    {
        match image_source_of(html) {
            Some(src) => {
                let kind = image_type(src.as_str());
                Some((src, kind))
            },
            None => None,
        }
    }

    /// An image has been cached: the number of images so far.
    pub fn image_stored(&mut self) -> (n: u32)
        ensures
            *final(self) == (GalleryJob {
                downloaded: old(self).downloaded.wrapping_add(1),
                ..*old(self)
            }),
            n == final(self).downloaded,
    {
        self.downloaded = self.downloaded.wrapping_add(1);
        self.downloaded
    }
}

/// The gallery pages that are planned for a range are the ones that show it: each image
/// of the range is shown by one of them, and by no other page; and each of them shows
/// an image of the range.
pub proof fn law_planned_pages_hold_the_range(first: int, last: int)
    requires
        1 <= first <= last,
    ensures
        forall|image: int|
            first <= image <= last ==> page_of(first) <= #[trigger] page_of(image) <= page_of(last)
                && shows(page_of(image), image),
        forall|page: int, image: int|
            first <= image <= last && #[trigger] shows(page, image) ==> page == page_of(image),
        forall|page: int|
            page_of(first) <= page <= page_of(last) <==> #[trigger] shows_some(page, first, last),
{
    assert forall|page: int| page_of(first) <= page <= page_of(last) implies #[trigger] shows_some(
        page,
        first,
        last,
    ) by {
        let image = if page == page_of(first) {
            first
        } else {
            page * IMAGES_PER_PAGE + 1
        };
        assert(shows(page, image));
    }
}

/// Only image pages in the range are wanted.
pub proof fn law_wanted_pages_are_in_range(hrefs: Seq<Option<Seq<char>>>, first: u32, last: u32)
    ensures
        forall|i: int|
            0 <= i < wanted_pages(hrefs, first, last).len() ==> first <= (
            #[trigger] wanted_pages(hrefs, first, last)[i]).0 <= last,
    decreases hrefs.len(),
{
    if hrefs.len() > 0 {
        let rest = wanted_pages(hrefs.drop_last(), first, last);
        law_wanted_pages_are_in_range(hrefs.drop_last(), first, last);
        let all = wanted_pages(hrefs, first, last);
        assert forall|i: int| 0 <= i < all.len() implies first <= (#[trigger] all[i]).0 <= last by {
            if i < rest.len() {
                assert(all[i] == rest[i]);
            }
        }
    }
}

/// Lists are read entry by entry: of tags those that are there, of links those to images,
/// each with its number, or its place where the address has none; and of these links, where
/// a range is asked for, those whose number lies in it.
pub proof fn law_lists_are_read_entry_by_entry(
    list: Seq<Option<Seq<char>>>,
    href: Seq<char>,
    first: u32,
    last: u32,
)
    requires
        list.len() < 0xffff_ffff,
    ensures
        present(Seq::empty()) == Seq::<Seq<char>>::empty(),
        present(list.push(Some(href))) == present(list).push(href),
        present(list.push(None)) == present(list),
        linked_images(Seq::empty()) == Seq::<ImageView>::empty(),
        linked_images(list.push(None)) == linked_images(list),
        wanted_pages(Seq::empty(), first, last) == Seq::<(u32, Seq<char>)>::empty(),
        wanted_pages(list.push(None), first, last) == wanted_pages(list, first, last),
        ({
            let link = web::regex_groups(r"/s/([a-f0-9]+)/(\d+)-(\d+)"@, href);
            let numbered = link is Some && (link->0).len() > 3 && (link->0)[3] is Some
                && text::parsed_unsigned((link->0)[3]->0, 0xffff_ffff) is Some;
            let number = text::parsed_unsigned((link->0)[3]->0, 0xffff_ffff)->0;
            &&& link is None ==> linked_images(list.push(Some(href))) == linked_images(list)
            &&& link is Some ==> linked_images(list.push(Some(href))) == linked_images(list).push(
                ImageView {
                    page_num: if numbered {
                        number as u32
                    } else {
                        (list.len() + 1) as u32
                    },
                    url: href,
                    file_hash: Some(
                        if (link->0).len() > 1 && (link->0)[1] is Some {
                            (link->0)[1]->0
                        } else {
                            Seq::empty()
                        },
                    ),
                    width: 0,
                    height: 0,
                },
            )
            &&& numbered && first <= number <= last ==> wanted_pages(
                list.push(Some(href)),
                first,
                last,
            ) == wanted_pages(list, first, last).push((number as u32, href))
            &&& !numbered || number < first || number > last ==> wanted_pages(
                list.push(Some(href)),
                first,
                last,
            ) == wanted_pages(list, first, last)
        }),
{
    assert(list.push(Some(href)).drop_last() =~= list);
    assert(list.push(None).drop_last() =~= list);
}

/// The lists of the functions that read pages are these.
pub proof fn law_links_are_read(
    hrefs: Vec<Option<String>>,
    images: Vec<GalleryImage>,
    first: u32,
    last: u32,
    pages: Vec<(u32, String)>,
    i: int,
)
    requires
        call_ensures(images_from, (&hrefs,), images),
        call_ensures(pages_from, (&hrefs, first, last), pages),
    ensures
        images@.len() == linked_images(web::optional_texts(hrefs@)).len(),
        0 <= i < images@.len() ==> images@[i]@ == linked_images(web::optional_texts(hrefs@))[i],
        pages@.len() == wanted_pages(web::optional_texts(hrefs@), first, last).len(),
        0 <= i < pages@.len() ==> (pages@[i].0, pages@[i].1@) == wanted_pages(
            web::optional_texts(hrefs@),
            first,
            last,
        )[i],
{
    assert(image_views(images@).len() == images@.len());
    assert(page_views(pages@).len() == pages@.len());
    if 0 <= i < images@.len() {
        assert(image_views(images@)[i] == images@[i]@);
    }
    if 0 <= i < pages@.len() {
        assert(page_views(pages@)[i] == (pages@[i].0, pages@[i].1@));
    }
}

/// One link by itself.
pub proof fn law_one_link_is_read(
    href: &str,
    link: Option<Vec<Option<String>>>,
    place: usize,
    image: Option<GalleryImage>,
    first: u32,
    last: u32,
    page: Option<(u32, String)>,
)
    requires
        call_ensures(image_from, (href, &link, place), image),
        call_ensures(page_from, (href, &link, first, last), page),
        place < 0xffff_ffff,
    ensures
        image is Some <==> link is Some,
        ({
            let groups = link->0@;
            let numbered = link is Some && groups.len() > 3 && groups[3] is Some
                && text::parsed_unsigned(groups[3]->0@, 0xffff_ffff) is Some;
            let number = text::parsed_unsigned(groups[3]->0@, 0xffff_ffff)->0;
            &&& image matches Some(found) ==> {
                &&& found.url@ == href@ && found.width == 0 && found.height == 0
                &&& numbered ==> found.page_num == number
                &&& !numbered ==> found.page_num == place + 1
                &&& found.file_hash is Some
                &&& groups.len() > 1 && groups[1] is Some ==> found.file_hash->0@ == groups[1]->0@
                &&& groups.len() <= 1 || groups[1] is None ==> found.file_hash->0@.len() == 0
            }
            &&& page is Some <==> numbered && first <= number <= last
            &&& page is Some ==> (page->0).0 == number && (page->0).1@ == href@
        }),
{
    if link is Some {
        let groups = web::optional_texts(link->0@);
        assert(groups.len() == link->0@.len());
        assert(groups.len() > 1 ==> groups[1] == web::optional_text(link->0@[1]));
        assert(groups.len() > 3 ==> groups[3] == web::optional_text(link->0@[3]));
        if groups.len() > 3 && groups[3] is Some {
            text::law_numbers_are_within_limits(groups[3]->0, 0, 0xffff_ffff);
        }
    }
}

/// A gallery is what its fields say; what is missing is empty or 0, and so is a count that
/// is no number.
pub proof fn law_galleries_have_their_fields(fields: GalleryFields, gallery: Gallery)
    requires
        call_ensures(gallery_from, (fields,), gallery),
    ensures
        fields.gid matches Some(n) ==> gallery.gid@ == text::decimal_int(n as int),
        fields.gid is None ==> gallery.gid@ == text::decimal_int(0),
        fields.token matches Some(s) ==> gallery.token@ == s@,
        fields.token is None ==> gallery.token@.len() == 0,
        fields.title matches Some(s) ==> gallery.title@ == s@,
        fields.title is None ==> gallery.title@.len() == 0,
        web::optional_text(gallery.title_jpn) == web::optional_text(fields.title_jpn),
        fields.category matches Some(s) ==> gallery.category@ == s@,
        fields.category is None ==> gallery.category@.len() == 0,
        fields.thumb matches Some(s) ==> gallery.thumb@ == s@,
        fields.thumb is None ==> gallery.thumb@.len() == 0,
        web::optional_text(gallery.uploader) == web::optional_text(fields.uploader),
        fields.posted matches Some(s) ==> gallery.posted@ == s@,
        fields.posted is None ==> gallery.posted@.len() == 0,
        fields.filecount is None ==> gallery.filecount == 0,
        fields.filecount matches Some(s) ==> (text::parsed_unsigned(s@, 0xffff_ffff) matches Some(
            n,
        ) ==> gallery.filecount == n),
        fields.filecount matches Some(s) ==> (text::parsed_unsigned(s@, 0xffff_ffff) is None
            ==> gallery.filecount == 0),
        fields.filesize matches Some(n) ==> gallery.filesize == n,
        fields.filesize is None ==> gallery.filesize == 0,
        fields.tags matches Some(list) ==> text::texts(gallery.tags@) == present(
            web::optional_texts(list@),
        ),
        fields.tags is None ==> gallery.tags@.len() == 0,
{
    let view = gallery@;
    assert(view == described(fields@));
    if fields.filecount is Some {
        text::law_numbers_are_within_limits(fields.filecount->0@, 0, 0xffff_ffff);
    }
    assert(text::texts(gallery.tags@).len() == gallery.tags@.len());
}

/// The reply of the gallery API: refused, no document, without a gallery, or with one,
/// whose fields are those of the first.
pub proof fn law_gallery_replies_are_read(
    downloader: GalleryDownloader,
    id: &str,
    forbidden: bool,
    body: &[u8],
    answer: Result<Gallery, GalleryError>,
    fields: GalleryFields,
    gallery: Gallery,
)
    requires
        call_ensures(
            GalleryDownloader::fetch_gallery_info,
            (&downloader, id, forbidden, body),
            answer,
        ),
        call_ensures(gallery_from, (fields,), gallery),
        fields.gid == web::json_signed(body@, "/gmetadata/0/gid"@),
        web::optional_text(fields.token) == web::json_string(body@, "/gmetadata/0/token"@),
        web::optional_text(fields.title) == web::json_string(body@, "/gmetadata/0/title"@),
        web::optional_text(fields.title_jpn) == web::json_string(body@, "/gmetadata/0/title_jpn"@),
        web::optional_text(fields.category) == web::json_string(body@, "/gmetadata/0/category"@),
        web::optional_text(fields.thumb) == web::json_string(body@, "/gmetadata/0/thumb"@),
        web::optional_text(fields.uploader) == web::json_string(body@, "/gmetadata/0/uploader"@),
        web::optional_text(fields.posted) == web::json_string(body@, "/gmetadata/0/posted"@),
        web::optional_text(fields.filecount) == web::json_string(body@, "/gmetadata/0/filecount"@),
        fields.filesize == web::json_unsigned(body@, "/gmetadata/0/filesize"@),
        web::optional_list(fields.tags) == web::json_strings(body@, "/gmetadata/0/tags"@),
    ensures
        forbidden ==> answer is Err && answer->Err_0 is AccessDenied,
        !forbidden && !web::is_json(body@) ==> (answer matches Err(GalleryError::Network(m)) && m@
            == "error decoding response body"@),
        ({
            let length = web::json_array_length(body@, "/gmetadata"@);
            &&& !forbidden && web::is_json(body@) && (length is None || length->0 == 0) ==> (
            answer matches Err(GalleryError::NotFound(m)) && m@ == id@)
            &&& !forbidden && web::is_json(body@) && length is Some && length->0 > 0 ==> answer
                is Ok && answer->Ok_0@ == gallery@
        }),
{
    assert(fields@ =~= reply_fields(body@));
}

/// A gallery page that was refused, warns or is too short shows no images; any other shows
/// those that it links to.
pub proof fn law_image_lists_are_read(
    downloader: GalleryDownloader,
    id: &str,
    refused: bool,
    html: &str,
    answer: Result<Vec<GalleryImage>, GalleryError>,
)
    requires
        call_ensures(
            GalleryDownloader::fetch_gallery_pages,
            (&downloader, id, refused, html),
            answer,
        ),
    ensures
        refused ==> (answer matches Err(GalleryError::NotFound(m)) && m@ == id@),
        !refused && (text::contains(html@, "Your IP address has been"@) || encode_utf8(html@).len()
            < 1000) ==> answer is Err && answer->Err_0 is AccessDenied,
        !refused && !text::contains(html@, "Your IP address has been"@) && encode_utf8(html@).len()
            >= 1000 ==> ({
            let links = web::selected_attributes(html@, "div.gdtm a, div.gdtl a"@, "href"@);
            &&& links is None ==> (answer matches Err(GalleryError::Parse(m)) && m@
                == "Invalid selector"@)
            &&& links is Some ==> answer is Ok && answer->Ok_0@.map_values(
                |i: GalleryImage| i@,
            ) == linked_images(links->0)
        }),
{
    text::lemma_byte_len(html@);
    if answer is Ok {
        assert(image_views(answer->Ok_0@) =~= answer->Ok_0@.map_values(|i: GalleryImage| i@));
    }
}

/// An image is where its page says, or else where the page asked again with its key is.
pub proof fn law_images_are_located(
    downloader: GalleryDownloader,
    page: &str,
    limited: bool,
    html: &str,
    answer: Result<String, GalleryError>,
    src: Option<String>,
    key: Option<String>,
    found: Result<String, GalleryError>,
    kind: &'static str,
    url: &str,
)
    requires
        call_ensures(
            GalleryDownloader::fetch_image_url,
            (&downloader, page, limited, html),
            answer,
        ),
        call_ensures(locate_image, (page, src, key), found),
        call_ensures(image_type, (url,), kind),
    ensures
        src matches Some(s) ==> found is Ok && found->Ok_0@ == s@,
        src is None ==> (key matches Some(k) ==> found is Ok && found->Ok_0@ == page@ + "?nl="@
            + k@),
        src is None && key is None ==> (found matches Err(GalleryError::Parse(m)) && m@
            == "Could not find image URL"@),
        limited ==> answer is Err && answer->Err_0 is RateLimited,
        ({
            let picked = web::selected_attributes(html@, "img#img"@, "src"@);
            let source = if picked is Some && (picked->0).len() > 0 {
                (picked->0)[0]
            } else {
                None
            };
            !limited && web::optional_text(src) == source && web::optional_text(key)
                == web::captured(web::regex_groups(r"nl\('([^']+)'\)"@, html@), 1) ==> {
                &&& answer is Ok <==> found is Ok
                &&& answer is Ok ==> answer->Ok_0@ == found->Ok_0@
            }
        }),
        text::contains(url@, ".png"@) ==> kind@ == "png"@,
        !text::contains(url@, ".png"@) && text::contains(url@, ".gif"@) ==> kind@ == "gif"@,
        !text::contains(url@, ".png"@) && !text::contains(url@, ".gif"@) ==> kind@ == "jpg"@,
{
}

/// Requests: the gallery API, a page of a gallery, and which galleries are queued; and the
/// names of the states of a download.
pub proof fn law_galleries_are_requested(
    downloader: GalleryDownloader,
    request: DownloadRequest,
    queued: bool,
    api: String,
    id: &str,
    token: &str,
    page: u32,
    url: String,
    number: i64,
    config: Config,
    fresh: GalleryDownloader,
    address: &str,
    read: Option<(String, String)>,
    other: Option<(String, String)>,
)
    requires
        call_ensures(GalleryDownloader::queue_gallery, (&downloader, &request), queued),
        call_ensures(GalleryDownloader::api_url, (&downloader,), api),
        call_ensures(
            GalleryDownloader::gallery_pages_request,
            (&downloader, id, token, page),
            url,
        ),
        call_ensures(gallery_number_of, (id,), number),
        call_ensures(GalleryDownloader::new, (config,), fresh),
        call_ensures(GalleryDownloader::parse_gallery_url, (address,), read),
        call_ensures(archive::ArchiveDownloader::parse_gallery_url, (address,), other),
    ensures
        !queued <==> exists|j: int|
            0 <= j < downloader.active_downloads@.len() && (
            #[trigger] downloader.active_downloads@[j])@ == request.gallery_id@ + "_"@
                + request.gallery_token@,
        api@ == downloader.config.gallery_api@ + "/api.php"@,
        url@ == (if downloader.config.exhentai_cookies is Some {
            "https://exhentai.org"@
        } else {
            "https://e-hentai.org"@
        }) + "/g/"@ + id@ + "/"@ + token@ + "/"@ + "?p="@ + text::decimal(page as nat),
        text::parsed_signed(id@, -0x8000_0000_0000_0000, 0x7fff_ffff_ffff_ffff) matches Some(n)
            ==> number == n,
        text::parsed_signed(id@, -0x8000_0000_0000_0000, 0x7fff_ffff_ffff_ffff) is None ==> number
            == 0,
        fresh.config == config && fresh.active_downloads@.len() == 0,
        read is Some <==> other is Some,
        read is Some ==> (read->0).0@ == (other->0).0@ && (read->0).1@ == (other->0).1@,
{
    let key = request.gallery_id@ + "_"@ + request.gallery_token@;
    let listed = text::texts(downloader.active_downloads@);
    assert(listed.len() == downloader.active_downloads@.len());
    assert(forall|j: int|
        0 <= j < listed.len() ==> listed[j] == (#[trigger] downloader.active_downloads@[j])@);
    if listed.contains(key) {
        let j = choose|j: int| 0 <= j < listed.len() && listed[j] == key;
        assert(downloader.active_downloads@[j]@ == key);
    }
    if exists|j: int|
        0 <= j < downloader.active_downloads@.len() && (#[trigger] downloader.active_downloads@[j])@
            == key {
        let j = choose|j: int|
            0 <= j < downloader.active_downloads@.len() && (
            #[trigger] downloader.active_downloads@[j])@ == key;
        assert(listed[j] == key);
    }
}

/// A download takes all images of its gallery, or those of the range that is asked for, and
/// the gallery pages, of forty images each, that show the first to the last of them.
pub proof fn law_jobs_are_planned(
    job: &mut GalleryJob,
    body: &[u8],
    info: Result<(String, u32), InfoFault>,
    other: &mut GalleryJob,
    third: &mut GalleryJob,
    count: u32,
    has: bool,
)
    requires
        call_ensures(GalleryJob::info_arrived, (job, body), info),
        call_ensures(GalleryJob::plan, (other,), ()),
        call_ensures(GalleryJob::set_count, (third, count), ()),
        call_ensures(GalleryJob::has_range, (&*old(other),), has),
        has,
    ensures
        has <==> old(other).first <= old(other).last,
        !web::is_json(body@) ==> info is Err && info->Err_0 == InfoFault::Undecodable,
        ({
            let length = web::json_array_length(body@, "/gmetadata"@);
            let title = web::json_string(body@, "/gmetadata/0/title"@);
            let images = web::json_string(body@, "/gmetadata/0/filecount"@);
            &&& web::is_json(body@) && (length is None || length->0 == 0) ==> info is Err
                && info->Err_0 == InfoFault::NoMetadata
            &&& info is Ok <==> web::is_json(body@) && length is Some && length->0 > 0
            &&& info matches Ok((told, n)) ==> {
                &&& title matches Some(s) ==> told@ == s
                &&& title is None ==> told@ == "Unknown"@
                &&& images is None ==> n == 0
                &&& images matches Some(s) ==> (text::parsed_unsigned(s, 0xffff_ffff) is None ==> n
                    == 0)
                &&& images matches Some(s) ==> (text::parsed_unsigned(s, 0xffff_ffff) matches Some(
                    m,
                ) ==> n == m)
                &&& old(job).start_page is None ==> final(job).first == 1
                &&& old(job).start_page matches Some(p) ==> final(job).first == p
                &&& old(job).end_page is None ==> final(job).last == n
                &&& old(job).end_page matches Some(p) ==> final(job).last == p
            }
        }),
        old(third).start_page is None ==> final(third).first == 1,
        old(third).start_page matches Some(p) ==> final(third).first == p,
        old(third).end_page is None ==> final(third).last == count,
        old(third).end_page matches Some(p) ==> final(third).last == p,
        old(other).first >= 1 ==> 40 * final(other).next_page < old(other).first <= 40 * (
        final(other).next_page + 1),
        old(other).first >= 1 ==> 40 * (final(other).pages - 1) < old(other).last <= 40
            * final(other).pages,
        old(other).first == 0 ==> final(other).next_page == 0,
        old(other).last == 0 ==> final(other).pages == 1,
        final(other).first == old(other).first && final(other).last == old(other).last,
{
    let images = web::json_string(body@, "/gmetadata/0/filecount"@);
    if images is Some {
        text::law_numbers_are_within_limits(images->0, 0, 0xffff_ffff);
    }
}

/// Gallery pages are fetched in turn, up to the last that is planned; of each, the image
/// pages in the range are fetched in the order of their links; and each image that is
/// stored counts.
pub proof fn law_jobs_go_page_by_page(
    job: &mut GalleryJob,
    other: &mut GalleryJob,
    third: &mut GalleryJob,
    fourth: &mut GalleryJob,
    fifth: &mut GalleryJob,
    url: Option<String>,
    hrefs: Vec<Option<String>>,
    html: &str,
    page: Option<(u32, String)>,
    n: u32,
    image: Option<(String, &'static str)>,
    request: DownloadRequest,
    exhentai: bool,
    fresh: GalleryJob,
)
    requires
        call_ensures(GalleryJob::next_gallery_page, (job,), url),
        call_ensures(GalleryJob::links_arrived, (other, &hrefs), ()),
        call_ensures(GalleryJob::next_image_page, (third,), page),
        call_ensures(GalleryJob::image_stored, (fourth,), n),
        call_ensures(GalleryJob::gallery_page_arrived, (fifth, html), ()),
        call_ensures(GalleryJob::image_page_arrived, (&*old(job), html), image),
        call_ensures(GalleryJob::new, (request, exhentai), fresh),
    ensures
        url is Some <==> old(job).next_page < old(job).pages,
        url matches Some(u) ==> {
            &&& u@ == (if old(job).exhentai {
                "https://exhentai.org"@
            } else {
                "https://e-hentai.org"@
            }) + "/g/"@ + old(job).gallery_id@ + "/"@ + old(job).gallery_token@ + "/"@ + "?p="@
                + text::decimal(old(job).next_page as nat)
            &&& final(job).next_page == old(job).next_page + 1
        },
        url is None ==> *final(job) == *old(job),
        final(other).images_left() == wanted_pages(
            web::optional_texts(hrefs@),
            old(other).first,
            old(other).last,
        ),
        web::selected_attributes(html@, "div.gdtm a, div.gdtl a"@, "href"@) matches Some(links)
            ==> final(fifth).images_left() == wanted_pages(
            links,
            old(fifth).first,
            old(fifth).last,
        ),
        web::selected_attributes(html@, "div.gdtm a, div.gdtl a"@, "href"@) is None
            ==> final(fifth).images_left().len() == 0,
        page is Some <==> old(third).images@.len() > 0,
        page matches Some(p) ==> (p.0, p.1@) == old(third).images_left()[0]
            && final(third).images_left() == old(third).images_left().skip(1),
        page is None ==> final(third).images_left() == old(third).images_left(),
        old(fourth).downloaded < 0xffff_ffff ==> n == old(fourth).downloaded + 1,
        final(fourth).downloaded == n,
        ({
            let picked = web::selected_attributes(html@, "img#img"@, "src"@);
            let source = if picked is Some && (picked->0).len() > 0 {
                (picked->0)[0]
            } else {
                None
            };
            &&& image is Some <==> source is Some
            &&& image matches Some((src, kind)) ==> {
                &&& Some(src@) == source
                &&& text::contains(src@, ".png"@) ==> kind@ == "png"@
                &&& !text::contains(src@, ".png"@) && text::contains(src@, ".gif"@) ==> kind@
                    == "gif"@
                &&& !text::contains(src@, ".png"@) && !text::contains(src@, ".gif"@) ==> kind@
                    == "jpg"@
            }
        }),
        fresh.gallery_id == request.gallery_id && fresh.gallery_token == request.gallery_token,
        fresh.exhentai == exhentai && fresh.start_page == request.start_page,
        fresh.end_page == request.end_page && fresh.pages == 0 && fresh.next_page == 0,
        fresh.images_left().len() == 0 && fresh.downloaded == 0,
{
    assert(old(third).images_left().len() == old(third).images@.len());
    if old(third).images_left().len() > 0 {
        assert(old(third).images_left().drop_first() =~= old(third).images_left().skip(1));
    }
}

/// The states of a download, and the errors, in words.
pub proof fn law_gallery_words(
    status: DownloadStatus,
    name: &'static str,
    e: GalleryError,
    told: String,
    fault: InfoFault,
    said: &'static str,
)
    requires
        call_ensures(DownloadStatus::as_str, (&status,), name),
        call_ensures(GalleryError::message, (&e,), told),
        call_ensures(InfoFault::message, (&fault,), said),
    ensures
        status == DownloadStatus::Pending ==> name@ == "pending"@,
        status == DownloadStatus::Downloading ==> name@ == "downloading"@,
        status == DownloadStatus::Completed ==> name@ == "completed"@,
        status == DownloadStatus::Failed ==> name@ == "failed"@,
        status == DownloadStatus::Paused ==> name@ == "paused"@,
        e matches GalleryError::Network(s) ==> told@ == "Network error: "@ + s@,
        e matches GalleryError::Parse(s) ==> told@ == "Parse error: "@ + s@,
        e matches GalleryError::NotFound(s) ==> told@ == "Gallery not found: "@ + s@,
        e is AccessDenied ==> told@ == "Access denied - login required"@,
        e is RateLimited ==> told@ == "Rate limited"@,
        e matches GalleryError::Database(s) ==> told@ == "Database error: "@ + s@,
        fault == InfoFault::Undecodable ==> said@ == "error decoding response body"@,
        fault == InfoFault::NoMetadata ==> said@ == "Gallery metadata not found"@,
{
}

}
