//! What the address of a release says of the project that it is one of.

use vstd::prelude::*;
use crate::release::{
    asset_base, identity_of, last_segment, latest_version, same_project, segments, url_path,
    IdentityView,
};
use crate::split::{
    find_nothing, rsplit_once, split, split_after_head, split_once,
    texts_are_parted_at_the_last_place,
};
use crate::text::{
    cut_end, cut_is_identity, cut_start, find_is_least, is_white, lowered, occurs_at, trim,
    CharClass,
};

verus! {

/// Whether a text can be a piece of the path of an address.
pub open spec fn is_piece(text: Seq<char>) -> bool {
    text.len() > 0 && forall|i: int|
        0 <= i < text.len() ==> (#[trigger] text[i]) != '/' && text[i] != '#' && text[i] != '?'
            && !is_white(text[i])
}

/// The path of the address of a file of a release.
pub open spec fn release_path(
    owner: Seq<char>,
    repo: Seq<char>,
    tag: Seq<char>,
    asset: Seq<char>,
) -> Seq<char> {
    owner + seq!['/'] + (repo + seq!['/'] + ("releases"@ + seq!['/'] + ("download"@ + seq!['/'] + (
    tag + seq!['/'] + asset))))
}

/// The address of a file of a release.
pub open spec fn release_url(
    host: Seq<char>,
    owner: Seq<char>,
    repo: Seq<char>,
    tag: Seq<char>,
    asset: Seq<char>,
) -> Seq<char> {
    "https"@ + "://"@ + (host + seq!['/'] + release_path(owner, repo, tag, asset))
}

proof fn texts_are_found_after_their_head(head: Seq<char>, sep: Seq<char>, rest: Seq<char>)
    requires
        sep.len() > 0,
        !head.contains(sep[0]),
    ensures
        split_once(head + sep + rest, sep) == Some((head, rest)),
{
    let s = head + sep + rest;
    let n = head.len() as int;
    find_is_least(s, sep, 0);
    assert(s.subrange(n, n + sep.len()) =~= sep);
    assert(occurs_at(s, sep, n));
    assert forall|i: int| 0 <= i < n implies !occurs_at(s, sep, i) by {
        if occurs_at(s, sep, i) {
            assert(s.subrange(i, i + sep.len())[0] == s[i]);
            assert(head.contains(head[i]));
        }
    }
    assert(s.take(n) =~= head);
    assert(s.skip(n + sep.len()) =~= rest);
}

proof fn texts_without_a_mark_are_whole(s: Seq<char>)
    requires
        !s.contains('#'),
        !s.contains('?'),
    ensures
        url_path(s) == s,
{
    reveal_strlit("#");
    reveal_strlit("?");
    assert("#"@ =~= seq!['#']);
    assert("?"@ =~= seq!['?']);
    find_nothing(s, '#');
    find_nothing(s, '?');
}

proof fn pieces_hold_no_mark(text: Seq<char>, c: char)
    requires
        is_piece(text),
        c == '/' || c == '#' || c == '?',
    ensures
        !text.contains(c),
{
}

proof fn joined_texts_hold_no_mark(a: Seq<char>, b: Seq<char>, c: char)
    requires
        !a.contains(c),
        !b.contains(c),
    ensures
        !(a + b).contains(c),
{
    let s = a + b;
    assert forall|i: int| 0 <= i < s.len() implies s[i] != c by {
        if i < a.len() {
            assert(a.contains(a[i]));
            assert(s[i] == a[i]);
        } else {
            assert(b.contains(b[i - a.len()]));
            assert(s[i] == b[i - a.len()]);
        }
    }
}

proof fn addresses_hold_no_mark(
    host: Seq<char>,
    owner: Seq<char>,
    repo: Seq<char>,
    tag: Seq<char>,
    asset: Seq<char>,
    c: char,
)
    requires
        is_piece(host),
        is_piece(owner),
        is_piece(repo),
        is_piece(tag),
        is_piece(asset),
        c == '#' || c == '?',
    ensures
        !release_url(host, owner, repo, tag, asset).contains(c),
{
    reveal_strlit("https");
    reveal_strlit("://");
    reveal_strlit("releases");
    reveal_strlit("download");
    pieces_hold_no_mark(host, c);
    pieces_hold_no_mark(owner, c);
    pieces_hold_no_mark(repo, c);
    pieces_hold_no_mark(tag, c);
    pieces_hold_no_mark(asset, c);
    let slash = seq!['/'];
    assert(!slash.contains(c));
    let p1 = tag + slash + asset;
    joined_texts_hold_no_mark(tag, slash, c);
    joined_texts_hold_no_mark(tag + slash, asset, c);
    assert(!"download"@.contains(c));
    joined_texts_hold_no_mark("download"@, slash, c);
    joined_texts_hold_no_mark("download"@ + slash, p1, c);
    let p2 = "download"@ + slash + p1;
    assert(!"releases"@.contains(c));
    joined_texts_hold_no_mark("releases"@, slash, c);
    joined_texts_hold_no_mark("releases"@ + slash, p2, c);
    let p3 = "releases"@ + slash + p2;
    joined_texts_hold_no_mark(repo, slash, c);
    joined_texts_hold_no_mark(repo + slash, p3, c);
    let p4 = repo + slash + p3;
    joined_texts_hold_no_mark(owner, slash, c);
    joined_texts_hold_no_mark(owner + slash, p4, c);
    joined_texts_hold_no_mark(host, slash, c);
    joined_texts_hold_no_mark(host + slash, release_path(owner, repo, tag, asset), c);
    assert(!"https"@.contains(c));
    assert(!"://"@.contains(c));
    joined_texts_hold_no_mark("https"@, "://"@, c);
    joined_texts_hold_no_mark(
        "https"@ + "://"@,
        host + slash + release_path(owner, repo, tag, asset),
        c,
    );
}

proof fn paths_have_six_segments(
    owner: Seq<char>,
    repo: Seq<char>,
    tag: Seq<char>,
    asset: Seq<char>,
)
    requires
        is_piece(owner),
        is_piece(repo),
        is_piece(tag),
        is_piece(asset),
    ensures
        segments(release_path(owner, repo, tag, asset)) == seq![
            owner,
            repo,
            "releases"@,
            "download"@,
            tag,
            asset,
        ],
{
    reveal_strlit("/");
    reveal_strlit("releases");
    reveal_strlit("download");
    assert("/"@ =~= seq!['/']);
    let sep = seq!['/'];
    pieces_hold_no_mark(owner, '/');
    pieces_hold_no_mark(repo, '/');
    pieces_hold_no_mark(tag, '/');
    pieces_hold_no_mark(asset, '/');
    assert(!"releases"@.contains('/'));
    assert(!"download"@.contains('/'));
    let p1 = tag + sep + asset;
    let p2 = "download"@ + sep + p1;
    let p3 = "releases"@ + sep + p2;
    let p4 = repo + sep + p3;
    split_after_head(owner, '/', p4);
    split_after_head(repo, '/', p3);
    split_after_head("releases"@, '/', p2);
    split_after_head("download"@, '/', p1);
    split_after_head(tag, '/', asset);
    find_nothing(asset, '/');
    let whole = seq![owner, repo, "releases"@, "download"@, tag, asset];
    assert(split(release_path(owner, repo, tag, asset), sep) =~= whole);
    nothing_is_left_out(whole);
}

proof fn nothing_is_left_out(pieces: Seq<Seq<char>>)
    requires
        forall|i: int| 0 <= i < pieces.len() ==> (#[trigger] pieces[i]).len() > 0,
    ensures
        pieces.filter(|piece: Seq<char>| piece.len() > 0) == pieces,
    decreases pieces.len(),
{
    reveal(Seq::filter);
    if pieces.len() > 0 {
        let head = pieces.drop_last();
        assert forall|i: int| 0 <= i < head.len() implies (#[trigger] head[i]).len() > 0 by {
            assert(pieces[i].len() > 0);
        }
        nothing_is_left_out(head);
        assert(pieces[pieces.len() - 1].len() > 0);
        assert(head.push(pieces.last()) =~= pieces);
    }
}

/// The address of a file of a release tells the host, the owner and the repository, and by
/// the name of the file what it is a release of; the release itself is no part of this. The
/// case of the host does not matter.
pub proof fn addresses_tell_their_project(
    host: Seq<char>,
    owner: Seq<char>,
    repo: Seq<char>,
    tag: Seq<char>,
    asset: Seq<char>,
)
    requires
        is_piece(host),
        is_piece(owner),
        is_piece(repo),
        is_piece(tag),
        is_piece(asset),
    ensures
        identity_of(release_url(host, owner, repo, tag, asset)) == if asset_base(asset).len() > 0 {
            Some(
                IdentityView {
                    host: lowered(host),
                    owner,
                    repo,
                    asset_name: asset_base(asset),
                },
            )
        } else {
            None
        },
{
    let url = release_url(host, owner, repo, tag, asset);
    let path = release_path(owner, repo, tag, asset);
    addresses_hold_no_mark(host, owner, repo, tag, asset, '#');
    addresses_hold_no_mark(host, owner, repo, tag, asset, '?');
    texts_without_a_mark_are_whole(url);
    reveal_strlit("https");
    reveal_strlit("://");
    reveal_strlit("/");
    assert("/"@ =~= seq!['/']);
    assert(url[0] == 'h');
    assert(path.last() == asset.last());
    assert(url.last() == asset.last());
    assert(asset.last() == asset[asset.len() - 1]);
    cut_is_identity(url, CharClass::White);
    assert(!"https"@.contains(':'));
    assert("://"@[0] == ':');
    texts_are_found_after_their_head("https"@, "://"@, host + seq!['/'] + path);
    pieces_hold_no_mark(host, '/');
    texts_are_found_after_their_head(host, "/"@, path);
    assert(host.last() == host[host.len() - 1]);
    cut_is_identity(host, CharClass::White);
    paths_have_six_segments(owner, repo, tag, asset);
}

/// Two addresses are of one project exactly where the host, the owner, the repository and
/// what the file is a release of are the same, whatever the releases are: this is how far an
/// address that is given for a deploy may differ from the one that is set.
pub proof fn releases_of_a_project_differ_in_their_tag(
    host: Seq<char>,
    owner: Seq<char>,
    repo: Seq<char>,
    tag: Seq<char>,
    asset: Seq<char>,
    other_host: Seq<char>,
    other_owner: Seq<char>,
    other_repo: Seq<char>,
    other_tag: Seq<char>,
    other_asset: Seq<char>,
)
    requires
        is_piece(host) && is_piece(owner) && is_piece(repo) && is_piece(tag) && is_piece(asset),
        is_piece(other_host) && is_piece(other_owner) && is_piece(other_repo),
        is_piece(other_tag) && is_piece(other_asset),
    ensures
        same_project(
            release_url(host, owner, repo, tag, asset),
            release_url(other_host, other_owner, other_repo, other_tag, other_asset),
        ) <==> {
            &&& lowered(host) == lowered(other_host)
            &&& owner == other_owner
            &&& repo == other_repo
            &&& asset_base(asset).len() > 0
            &&& asset_base(asset) == asset_base(other_asset)
        },
{
    addresses_tell_their_project(host, owner, repo, tag, asset);
    addresses_tell_their_project(other_host, other_owner, other_repo, other_tag, other_asset);
}

proof fn last_segments_follow_the_last_slash(base: Seq<char>, piece: Seq<char>)
    requires
        is_piece(piece),
    ensures
        last_segment(base + seq!['/'] + piece) == piece,
{
    reveal_strlit("/");
    assert("/"@ =~= seq!['/']);
    let url = base + seq!['/'] + piece;
    let n = base.len() as int;
    assert(url.subrange(n, n + 1) =~= "/"@);
    assert(occurs_at(url, "/"@, n));
    texts_are_parted_at_the_last_place(url, "/"@);
    let (head, tail) = rsplit_once(url, "/"@)->0;
    let m = head.len() as int;
    assert(url[m] == '/') by {
        assert((head + "/"@ + tail)[m] == "/"@[0]);
    }
    assert(m == n) by {
        if m > n {
            assert(url[m] == piece[m - n - 1]);
        }
    }
    assert(tail =~= piece) by {
        assert(tail.len() == piece.len());
        assert forall|i: int| 0 <= i < tail.len() implies tail[i] == piece[i] by {
            assert((head + "/"@ + tail)[m + 1 + i] == tail[i]);
            assert(url[n + 1 + i] == piece[i]);
        }
    }
}

/// The latest release is the one that the forge leads on to: the last piece of the address,
/// without the letter before its number. An address that ends where it started, or names no
/// number, tells of none.
pub proof fn the_latest_release_is_in_its_address(base: Seq<char>, version: Seq<char>)
    requires
        base.len() > 0,
        !is_white(base[0]),
        !base.contains('#'),
        !base.contains('?'),
        is_piece(version),
        version[0] != 'v',
    ensures
        latest_version(base + seq!['/'] + (seq!['v'] + version)) == Some(version),
        latest_version(base + seq!['/'] + "latest"@) is None,
{
    let tag = seq!['v'] + version;
    let url = base + seq!['/'] + tag;
    assert(!is_white('v'));
    assert forall|i: int| 0 <= i < tag.len() implies (#[trigger] tag[i]) != '/' && tag[i] != '#'
        && tag[i] != '?' && !is_white(tag[i]) by {
        if i > 0 {
            assert(tag[i] == version[i - 1]);
        }
    }
    assert(is_piece(tag));
    ends_are_clean(base, tag);
    last_segments_follow_the_last_slash(base, tag);
    assert(tag.skip(1) =~= version);
    assert(cut_start(tag, CharClass::Is('v')) == version) by {
        reveal_with_fuel(cut_start, 3);
        assert(tag[0] == 'v');
    }
    assert(version.last() == version[version.len() - 1]);
    cut_is_identity(version, CharClass::White);
    reveal_strlit("latest");
    assert(lowered(tag)[0] == 'v');
    assert(lowered("latest"@)[0] == 'l');
    let word = "latest"@;
    assert(is_piece(word));
    ends_are_clean(base, word);
    last_segments_follow_the_last_slash(base, word);
}

proof fn ends_are_clean(base: Seq<char>, piece: Seq<char>)
    requires
        base.len() > 0,
        !is_white(base[0]),
        !base.contains('#'),
        !base.contains('?'),
        is_piece(piece),
    ensures
        ({
            let url = base + seq!['/'] + piece;
            cut_end(url_path(trim(url)), CharClass::Is('/')) == url
        }),
{
    let url = base + seq!['/'] + piece;
    assert(url.last() == piece[piece.len() - 1]);
    assert(url[0] == base[0]);
    cut_is_identity(url, CharClass::White);
    pieces_hold_no_mark(piece, '#');
    pieces_hold_no_mark(piece, '?');
    let slash = seq!['/'];
    assert(!slash.contains('#') && !slash.contains('?'));
    joined_texts_hold_no_mark(base, slash, '#');
    joined_texts_hold_no_mark(base + slash, piece, '#');
    joined_texts_hold_no_mark(base, slash, '?');
    joined_texts_hold_no_mark(base + slash, piece, '?');
    texts_without_a_mark_are_whole(url);
    assert(cut_end(url, CharClass::Is('/')) == url);
}

} // verus!
