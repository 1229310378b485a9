//! The pages of the user interface that the HTTP interface serves beside its own paths.
use vstd::prelude::*;
use vstd::string::*;
use crate::text;

verus! {

broadcast use vstd::string::group_string_axioms;

/// A file of the user interface.
#[derive(Debug)]
pub struct UiAsset {
    pub path: String,
    pub content_type: String,
}

/// What a request for the user interface is answered with.
#[derive(Clone, Copy, PartialEq, Eq, Debug, Structural)]
pub enum UiReply {
    /// The file with this number.
    File(usize),
    /// There is no such page.
    NotFound,
    /// The front page is missing.
    NoFrontPage,
}

/// The number of the first file at a path.
pub open spec fn asset_at(assets: Seq<UiAsset>, path: Seq<char>) -> Option<int>
    decreases assets.len(),
{
    if assets.len() == 0 {
        None
    } else {
        match asset_at(assets.drop_last(), path) {
            Some(i) => Some(i),
            None => if assets.last().path@ == path {
                Some(assets.len() - 1)
            } else {
                None
            },
        }
    }
}

proof fn lemma_asset_at(assets: Seq<UiAsset>, path: Seq<char>)
    ensures
        asset_at(assets, path) matches Some(i) ==> 0 <= i < assets.len() && assets[i].path@
            == path,
        asset_at(assets, path) is None ==> forall|i: int|
            0 <= i < assets.len() ==> (#[trigger] assets[i]).path@ != path,
    decreases assets.len(),
{
    if assets.len() > 0 {
        lemma_asset_at(assets.drop_last(), path);
        assert forall|i: int|
            asset_at(assets, path) is None && 0 <= i < assets.len() implies (
        #[trigger] assets[i]).path@ != path by {
            if i < assets.len() - 1 {
                assert(assets.drop_last()[i] == assets[i]);
            }
        }
    }
}

/// A file that was found stays the one that is found, whatever comes behind it.
proof fn lemma_asset_at_prefix(assets: Seq<UiAsset>, n: int, path: Seq<char>)
    requires
        0 <= n <= assets.len(),
        asset_at(assets.take(n), path) is Some,
    ensures
        asset_at(assets, path) == asset_at(assets.take(n), path),
    decreases assets.len(),
{
    if n < assets.len() {
        assert(assets.drop_last().take(n) =~= assets.take(n));
        lemma_asset_at_prefix(assets.drop_last(), n, path);
    } else {
        assert(assets.take(n) =~= assets);
    }
}

/// Finds the file at a path.
pub fn find_ui_asset(assets: &Vec<UiAsset>, path: &str) -> (r: Option<usize>)
    ensures
        match r {
            Some(i) => asset_at(assets@, path@) == Some(i as int),
            None => asset_at(assets@, path@) is None,
        },
{
    let mut i: usize = 0;
    while i < assets.len()
        invariant
            i <= assets@.len(),
            asset_at(assets@.take(i as int), path@) is None,
        decreases assets@.len() - i,
    {
        let ghost next = assets@.take(i + 1);
        assert(next.drop_last() =~= assets@.take(i as int));
        assert(next.last() == assets@[i as int]);
        if text::same(assets[i].path.as_str(), path) {
            proof {
                lemma_asset_at_prefix(assets@, i + 1, path@);
            }
            return Some(i);
        }
        i = i + 1;
    }
    assert(assets@.take(i as int) =~= assets@);
    None
}

/// How long a file may be kept by who asked for it.
pub open spec fn cache_control(path: Seq<char>) -> Seq<char> {
    if path == "index.html"@ {
        "no-cache"@
    } else if text::starts_with(path, "assets/"@) {
        "public, max-age=31536000, immutable"@
    } else {
        "public, max-age=3600"@
    }
}

/// How long a file may be kept by who asked for it.
pub fn ui_cache_control(asset: &UiAsset) -> (r: String)
    ensures
        r@ == cache_control(asset.path@),
{
    if text::same(asset.path.as_str(), "index.html") {
        "no-cache".to_owned()
    } else if text::begins_with(asset.path.as_str(), "assets/") {
        "public, max-age=31536000, immutable".to_owned()
    } else {
        "public, max-age=3600".to_owned()
    }
}

/// Whether a path belongs to the interface itself.
pub open spec fn is_reserved(path: Seq<char>) -> bool {
    path == "v1"@ || text::starts_with(path, "v1/"@) || path == "_mte"@ || text::starts_with(
        path,
        "_mte/"@,
    )
}

/// Whether a path belongs to the interface itself.
pub fn is_reserved_api_path(path: &str) -> (r: bool)
    ensures
        r == is_reserved(path@),
{
    text::same(path, "v1") || text::begins_with(path, "v1/") || text::same(path, "_mte")
        || text::begins_with(path, "_mte/")
}

/// Whether `r` is the front page.
pub open spec fn is_front_page(assets: Seq<UiAsset>, r: UiReply) -> bool {
    match asset_at(assets, "index.html"@) {
        Some(i) => r matches UiReply::File(k) && k == i,
        None => r == UiReply::NoFrontPage,
    }
}

/// Whether `r` is the file at a path.
pub open spec fn is_file(assets: Seq<UiAsset>, path: Seq<char>, r: UiReply) -> bool {
    match asset_at(assets, path) {
        Some(i) => r matches UiReply::File(k) && k == i,
        None => r == UiReply::NotFound,
    }
}

/// Gives the front page.
pub fn ui_index(assets: &Vec<UiAsset>) -> (r: UiReply)
    ensures
        is_front_page(assets@, r),
{
    match find_ui_asset(assets, "index.html") {
        Some(i) => UiReply::File(i),
        None => UiReply::NoFrontPage,
    }
}

/// Gives the file at a path below `assets/`.
pub fn ui_asset(assets: &Vec<UiAsset>, asset_path: &str) -> (r: UiReply)
    ensures
        is_file(assets@, "assets/"@ + asset_path@, r),
{
    let mut path: String = "assets/".to_owned();
    path.append(asset_path);
    match find_ui_asset(assets, path.as_str()) {
        Some(i) => UiReply::File(i),
        None => UiReply::NotFound,
    }
}

/// Whether a path can only mean a file.
pub open spec fn means_file(path: Seq<char>) -> bool {
    path == "assets"@ || text::starts_with(path, "assets/"@) || path.contains('.')
}

/// Whether `r` answers a request for a path that nothing else serves. A path of the interface
/// itself gives nothing; one without a file, that does not look like one, gives the front
/// page, which reads the path itself.
pub open spec fn is_fallback(assets: Seq<UiAsset>, raw: Seq<char>, r: UiReply) -> bool {
    let path = text::trim_start_char(raw, '/');
    if path.len() == 0 {
        is_front_page(assets, r)
    } else if is_reserved(path) {
        r == UiReply::NotFound
    } else if asset_at(assets, path) is Some || means_file(path) {
        is_file(assets, path, r)
    } else {
        is_front_page(assets, r)
    }
}

fn has_dot(path: &str) -> (r: bool)
    ensures
        r == path@.contains('.'),
{
    let chars: Vec<char> = text::chars_of(path);
    let mut i: usize = 0;
    while i < chars.len()
        invariant
            i <= chars@.len(),
            chars@ == path@,
            forall|k: int| 0 <= k < i ==> path@[k] != '.',
        decreases chars@.len() - i,
    {
        if chars[i] == '.' {
            assert(path@[i as int] == '.');
            return true;
        }
        i = i + 1;
    }
    false
}

/// Answers a request for a path that nothing else serves.
pub fn ui_fallback(assets: &Vec<UiAsset>, raw: &str) -> (r: UiReply)
    ensures
        is_fallback(assets@, raw@, r),
{
    let path: String = text::without_leading(raw, '/');
    if path.as_str().is_empty() {
        return ui_index(assets);
    }
    if is_reserved_api_path(path.as_str()) {
        return UiReply::NotFound;
    }
    if let Some(i) = find_ui_asset(assets, path.as_str()) {
        return UiReply::File(i);
    }
    if text::same(path.as_str(), "assets") || text::begins_with(path.as_str(), "assets/")
        || has_dot(path.as_str()) {
        return UiReply::NotFound;
    }
    ui_index(assets)
}

/// The user interface never answers for a path of the interface itself, whatever files there
/// are.
pub proof fn law_api_paths_are_not_pages(assets: Seq<UiAsset>, raw: Seq<char>, r: UiReply)
    requires
        is_fallback(assets, raw, r),
        is_reserved(text::trim_start_char(raw, '/')),
    ensures
        r == UiReply::NotFound,
{
    reveal_strlit("v1");
    reveal_strlit("v1/");
    reveal_strlit("_mte");
    reveal_strlit("_mte/");
}

/// A file that is given has the path that was asked for, or is the front page.
pub proof fn law_page_is_what_was_asked(
    assets: Seq<UiAsset>,
    raw: Seq<char>,
    r: UiReply,
    number: usize,
)
    requires
        is_fallback(assets, raw, r),
        r == UiReply::File(number),
    ensures
        number < assets.len(),
        assets[number as int].path@ == text::trim_start_char(raw, '/')
            || assets[number as int].path@ == "index.html"@,
{
    lemma_asset_at(assets, "index.html"@);
    lemma_asset_at(assets, text::trim_start_char(raw, '/'));
}

/// A file under `assets/` may be kept for good; the front page is asked for each time.
pub proof fn law_front_page_is_fresh(path: Seq<char>)
    ensures
        path == "index.html"@ ==> cache_control(path) == "no-cache"@,
        text::starts_with(path, "assets/"@) ==> cache_control(path)
            == "public, max-age=31536000, immutable"@,
{
    reveal_strlit("index.html");
    reveal_strlit("assets/");
    if text::starts_with(path, "assets/"@) {
        assert(path[0] == path.subrange(0, 7)[0]) by {
            assert(path.take(7) == "assets/"@ || path.subrange(0, 7) == "assets/"@);
        }
        assert(path[0] == 'a');
        assert("index.html"@[0] == 'i');
    }
}

proof fn lemma_first_asset_at(assets: Seq<UiAsset>, path: Seq<char>)
    ensures
        asset_at(assets, path) is None <==> forall|i: int|
            0 <= i < assets.len() ==> (#[trigger] assets[i]).path@ != path,
        asset_at(assets, path) matches Some(k) ==> 0 <= k < assets.len() && assets[k].path@ == path
            && forall|i: int| 0 <= i < k ==> (#[trigger] assets[i]).path@ != path,
    decreases assets.len(),
{
    if assets.len() > 0 {
        let head = assets.drop_last();
        lemma_first_asset_at(head, path);
        match asset_at(head, path) {
            Some(k) => {
                assert(assets[k] == head[k]);
                assert forall|i: int| 0 <= i < k implies (#[trigger] assets[i]).path@ != path by {
                    assert(head[i] == assets[i]);
                }
            },
            None => {
                assert forall|i: int| 0 <= i < assets.len() - 1 implies (
                #[trigger] assets[i]).path@ != path by {
                    assert(head[i] == assets[i]);
                }
            },
        }
    }
}

/// A file that the interface has is given when it is asked for by its path, slashes at the start
/// aside, unless the path is one of the programming interface. The first of several is given.
pub proof fn law_files_are_given(assets: Seq<UiAsset>, raw: Seq<char>, r: UiReply, k: int)
    requires
        is_fallback(assets, raw, r),
        0 <= k <= usize::MAX,
        k < assets.len(),
        assets[k].path@ == text::trim_start_char(raw, '/'),
        assets[k].path@.len() > 0,
        assets[k].path@ != "v1"@,
        !text::starts_with(assets[k].path@, "v1/"@),
        assets[k].path@ != "_mte"@,
        !text::starts_with(assets[k].path@, "_mte/"@),
        forall|i: int| 0 <= i < k ==> (#[trigger] assets[i]).path@ != assets[k].path@,
    ensures
        r == UiReply::File(k as usize),
{
    let path = assets[k].path@;
    lemma_first_asset_at(assets, path);
    let found = asset_at(assets, path)->0;
    assert(found == k) by {
        if found < k {
            assert(assets[found].path@ != path);
        } else if found > k {
            assert(assets[k].path@ != path);
        }
    }
}

/// A path that means a file that the interface does not have is not found; any other path that
/// it does not have is a page, and the front page is given for it, as it is for no path at all.
pub proof fn law_missing_files_are_not_pages(
    assets: Seq<UiAsset>,
    raw: Seq<char>,
    r: UiReply,
    front: int,
)
    requires
        is_fallback(assets, raw, r),
        forall|i: int|
            0 <= i < assets.len() ==> (#[trigger] assets[i]).path@ != text::trim_start_char(
                raw,
                '/',
            ),
        !is_reserved(text::trim_start_char(raw, '/')),
    ensures
        text::trim_start_char(raw, '/').contains('.') ==> r == UiReply::NotFound,
        text::starts_with(text::trim_start_char(raw, '/'), "assets/"@) ==> r == UiReply::NotFound,
        !text::trim_start_char(raw, '/').contains('.') && !text::starts_with(
            text::trim_start_char(raw, '/'),
            "assets/"@,
        ) && text::trim_start_char(raw, '/') != "assets"@ && 0 <= front < assets.len() && front
            <= usize::MAX && assets[front].path@ == "index.html"@ && (forall|i: int|
            0 <= i < front ==> (#[trigger] assets[i]).path@ != "index.html"@) ==> r
            == UiReply::File(front as usize),
        !text::trim_start_char(raw, '/').contains('.') && !text::starts_with(
            text::trim_start_char(raw, '/'),
            "assets/"@,
        ) && text::trim_start_char(raw, '/') != "assets"@ && (forall|i: int|
            0 <= i < assets.len() ==> (#[trigger] assets[i]).path@ != "index.html"@) ==> r
            == UiReply::NoFrontPage,
{
    let path = text::trim_start_char(raw, '/');
    lemma_first_asset_at(assets, path);
    lemma_first_asset_at(assets, "index.html"@);
    reveal_strlit("assets/");
    if path.len() == 0 {
        assert(!text::starts_with(path, "assets/"@));
    }
    if 0 <= front < assets.len() && assets[front].path@ == "index.html"@ && (forall|i: int|
        0 <= i < front ==> (#[trigger] assets[i]).path@ != "index.html"@) {
        let found = asset_at(assets, "index.html"@)->0;
        assert(found == front) by {
            if found < front {
                assert(assets[found].path@ != "index.html"@);
            } else if found > front {
                assert(assets[front].path@ != "index.html"@);
            }
        }
    }
}

/// The paths of the programming interface are the two reserved names and all below them, and no
/// others.
pub proof fn law_reserved_paths(path: Seq<char>, rest: Seq<char>)
    ensures
        is_reserved("v1"@),
        is_reserved("_mte"@),
        is_reserved("v1/"@ + rest),
        is_reserved("_mte/"@ + rest),
        path.len() > 0 && path[0] != 'v' && path[0] != '_' ==> !is_reserved(path),
        path.len() == 0 ==> !is_reserved(path),
{
    reveal_strlit("v1");
    reveal_strlit("v1/");
    reveal_strlit("_mte");
    reveal_strlit("_mte/");
    text::lemma_starts_with_concat("v1/"@, rest);
    text::lemma_starts_with_concat("_mte/"@, rest);
    assert("v1"@[0] == 'v' && "v1/"@[0] == 'v' && "_mte"@[0] == '_' && "_mte/"@[0] == '_');
    if path.len() > 0 && path[0] != 'v' && path[0] != '_' {
        if text::starts_with(path, "v1/"@) {
            assert(path.subrange(0, 3)[0] == path[0]);
        }
        if text::starts_with(path, "_mte/"@) {
            assert(path.subrange(0, 5)[0] == path[0]);
        }
    }
}

} // verus!
