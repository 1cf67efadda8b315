//! The forms of the admin pages: what a submitted form makes of a board
//! game, and what a board game shows in the form that edits it.
use vstd::prelude::*;

use crate::db::models::{BoardGame, BoardGameExpansion};
use crate::text::eq_str;
use crate::utils::UploadedFile;

verus! {

/// The login form of the admin pages.
#[derive(Debug)]
pub struct AdminAuthForm {
    pub token: String,
}

/// A submitted board game form. Check boxes hold the text the browser sent,
/// if any; `expansion_titles` holds the titles of the expansion rows, and
/// `meta_del_expansion` the indices of the rows marked for deletion.
#[derive(Debug)]
pub struct BGMultiPartForm {
    pub title: String,
    pub image: Option<UploadedFile>,
    pub min_players: u8,
    pub max_players: u8,
    pub players_no_limit: Option<String>,
    pub min_playtime: u16,
    pub max_playtime: u16,
    pub playtime_no_limit: Option<String>,
    pub available: Option<String>,
    pub meta_add_expansion: Option<String>,
    pub expansion_titles: Vec<String>,
    pub meta_del_expansion: Vec<u8>,
}

/// The values a board game form shows; `None` leaves a field empty.
#[derive(Debug)]
pub struct BGForm {
    pub title: Option<String>,
    pub image_url: Option<String>,
    pub min_players: Option<u8>,
    pub max_players: Option<u8>,
    pub players_no_limit: Option<bool>,
    pub min_playtime: Option<u16>,
    pub max_playtime: Option<u16>,
    pub playtime_no_limit: Option<bool>,
    pub available: Option<bool>,
    pub expansions: Vec<BGExpansionForm>,
}

/// One expansion row of a board game form.
#[derive(Debug, PartialEq, Eq)]
pub struct BGExpansionForm {
    pub title: Option<String>,
}

/// A check box is ticked when the browser sent `on` for it.
pub open spec fn is_on(v: Option<String>) -> bool {
    v is Some && v->0@ == "on"@
}

/// Whether a check box is ticked.
pub fn checkbox_on(v: &Option<String>) -> (b: bool)
    ensures
        b == is_on(*v),
{
    match v {
        Some(text) => eq_str(text.as_str(), "on"),
        None => false,
    }
}

/// The expansions named by a list of titles.
pub open spec fn expansions_of(titles: Seq<String>) -> Seq<BoardGameExpansion> {
    titles.map_values(|t: String| BoardGameExpansion { title: t })
}

/// The form rows of a list of titles.
pub open spec fn expansion_rows_of(titles: Seq<String>) -> Seq<BGExpansionForm> {
    titles.map_values(|t: String| BGExpansionForm { title: Some(t) })
}

/// The titles of a list of expansions.
pub open spec fn titles_of(e: Seq<BoardGameExpansion>) -> Seq<String> {
    e.map_values(|x: BoardGameExpansion| x.title)
}

/// The board game that a submitted form describes, before it gets an id and
/// an image: every field from the form, the placeholder image, no id.
pub open spec fn is_boardgame_of_form(f: BGMultiPartForm, bg: BoardGame) -> bool {
    &&& bg.uid is None
    &&& bg.title == f.title
    &&& bg.image_url@ == "assets/placeholder.webp"@
    &&& bg.min_players == f.min_players
    &&& bg.max_players == f.max_players
    &&& bg.players_no_limit == is_on(f.players_no_limit)
    &&& bg.min_playtime == f.min_playtime
    &&& bg.max_playtime == f.max_playtime
    &&& bg.playtime_no_limit == is_on(f.playtime_no_limit)
    &&& bg.available == is_on(f.available)
    &&& bg.expansions@ == expansions_of(f.expansion_titles@)
    &&& bg.bgg_id is None
}

/// The form that shows a submitted form again: every field from it, an
/// empty image.
pub open spec fn is_form_of_multipart(f: BGMultiPartForm, r: BGForm) -> bool {
    &&& r.title == Some(f.title)
    &&& r.image_url is Some && r.image_url->0@ == ""@
    &&& r.min_players == Some(f.min_players)
    &&& r.max_players == Some(f.max_players)
    &&& r.players_no_limit == Some(is_on(f.players_no_limit))
    &&& r.min_playtime == Some(f.min_playtime)
    &&& r.max_playtime == Some(f.max_playtime)
    &&& r.playtime_no_limit == Some(is_on(f.playtime_no_limit))
    &&& r.available == Some(is_on(f.available))
    &&& r.expansions@ == expansion_rows_of(f.expansion_titles@)
}

/// The form that edits a board game: every field from it.
pub open spec fn is_form_of_boardgame(bg: BoardGame, r: BGForm) -> bool {
    &&& r.title == Some(bg.title)
    &&& r.image_url == Some(bg.image_url)
    &&& r.min_players == Some(bg.min_players)
    &&& r.max_players == Some(bg.max_players)
    &&& r.players_no_limit == Some(bg.players_no_limit)
    &&& r.min_playtime == Some(bg.min_playtime)
    &&& r.max_playtime == Some(bg.max_playtime)
    &&& r.playtime_no_limit == Some(bg.playtime_no_limit)
    &&& r.available == Some(bg.available)
    &&& r.expansions@ == expansion_rows_of(titles_of(bg.expansions@))
}

/// The titles with the rows of `indices` removed one after the other, from
/// the last index to the first; `None` when an index is past the end of the
/// rows left at its turn.
pub open spec fn remove_rows(titles: Seq<String>, indices: Seq<u8>) -> Option<Seq<String>>
    decreases indices.len(),
{
    if indices.len() == 0 {
        Some(titles)
    } else {
        let i = indices.last() as int;
        if i < titles.len() {
            remove_rows(titles.remove(i), indices.drop_last())
        } else {
            None
        }
    }
}

/// Copies of the titles as expansions.
fn expansions_from_titles(titles: &Vec<String>) -> (r: Vec<BoardGameExpansion>)
    ensures
        r@ == expansions_of(titles@),
{
    let mut r: Vec<BoardGameExpansion> = Vec::new();
    for i in 0..titles.len()
        invariant
            r@ == expansions_of(titles@.take(i as int)),
    {
        r.push(BoardGameExpansion { title: titles[i].clone() });
        assert(expansions_of(titles@.take(i + 1)) == expansions_of(titles@.take(i as int)).push(
            BoardGameExpansion { title: titles@[i as int] },
        )) by {
            assert(titles@.take(i + 1) == titles@.take(i as int).push(titles@[i as int]));
        }
    }
    assert(titles@.take(titles@.len() as int) == titles@);
    r
}

/// Copies of the titles as form rows.
fn rows_from_titles(titles: &Vec<String>) -> (r: Vec<BGExpansionForm>)
    ensures
        r@ == expansion_rows_of(titles@),
{
    let mut r: Vec<BGExpansionForm> = Vec::new();
    for i in 0..titles.len()
        invariant
            r@ == expansion_rows_of(titles@.take(i as int)),
    {
        r.push(BGExpansionForm { title: Some(titles[i].clone()) });
        assert(expansion_rows_of(titles@.take(i + 1)) == expansion_rows_of(
            titles@.take(i as int),
        ).push(BGExpansionForm { title: Some(titles@[i as int]) })) by {
            assert(titles@.take(i + 1) == titles@.take(i as int).push(titles@[i as int]));
        }
    }
    assert(titles@.take(titles@.len() as int) == titles@);
    r
}

impl BGForm {
    /// The empty form for a new board game.
    pub fn blank() -> (r: BGForm)
        ensures
            r.title is None,
            r.image_url is None,
            r.min_players is None,
            r.max_players is None,
            r.players_no_limit is None,
            r.min_playtime is None,
            r.max_playtime is None,
            r.playtime_no_limit is None,
            r.available is None,
            r.expansions@.len() == 0,
    {
        BGForm {
            title: None,
            image_url: None,
            min_players: None,
            max_players: None,
            players_no_limit: None,
            min_playtime: None,
            max_playtime: None,
            playtime_no_limit: None,
            available: None,
            expansions: Vec::new(),
        }
    }

    /// The form that shows a submitted form again.
    pub fn from_multipart(form: BGMultiPartForm) -> (r: BGForm)
        ensures
            is_form_of_multipart(form, r),
    {
        let exp = rows_from_titles(&form.expansion_titles);
        let playtime_no_limit = checkbox_on(&form.playtime_no_limit);
        let players_no_limit = checkbox_on(&form.players_no_limit);
        let available = checkbox_on(&form.available);
        let empty = String::new();
        proof {
            reveal_strlit("");
            assert(empty@ == ""@);
        }
        BGForm {
            title: Some(form.title),
            image_url: Some(empty),
            min_players: Some(form.min_players),
            max_players: Some(form.max_players),
            players_no_limit: Some(players_no_limit),
            min_playtime: Some(form.min_playtime),
            max_playtime: Some(form.max_playtime),
            playtime_no_limit: Some(playtime_no_limit),
            available: Some(available),
            expansions: exp,
        }
    }

    /// The form that edits a board game.
    pub fn from_boardgame(bg: BoardGame) -> (r: BGForm)
        ensures
            is_form_of_boardgame(bg, r),
    {
        let mut exps: Vec<BGExpansionForm> = Vec::new();
        let ghost titles = titles_of(bg.expansions@);
        for i in 0..bg.expansions.len()
            invariant
                titles == titles_of(bg.expansions@),
                exps@ == expansion_rows_of(titles.take(i as int)),
        {
            exps.push(BGExpansionForm { title: Some(bg.expansions[i].title.clone()) });
            assert(expansion_rows_of(titles.take(i + 1)) == expansion_rows_of(
                titles.take(i as int),
            ).push(BGExpansionForm { title: Some(titles[i as int]) })) by {
                assert(titles.take(i + 1) == titles.take(i as int).push(titles[i as int]));
            }
        }
        assert(titles.take(titles.len() as int) == titles);
        BGForm {
            title: Some(bg.title),
            image_url: Some(bg.image_url),
            min_players: Some(bg.min_players),
            max_players: Some(bg.max_players),
            players_no_limit: Some(bg.players_no_limit),
            min_playtime: Some(bg.min_playtime),
            max_playtime: Some(bg.max_playtime),
            playtime_no_limit: Some(bg.playtime_no_limit),
            available: Some(bg.available),
            expansions: exps,
        }
    }

    /// The form with one more, empty, expansion row at the end.
    pub fn with_new_expansion(self) -> (r: BGForm)
        ensures
            r.expansions@ == self.expansions@.push(BGExpansionForm { title: None }),
            r.title == self.title,
            r.image_url == self.image_url,
            r.min_players == self.min_players,
            r.max_players == self.max_players,
            r.players_no_limit == self.players_no_limit,
            r.min_playtime == self.min_playtime,
            r.max_playtime == self.max_playtime,
            r.playtime_no_limit == self.playtime_no_limit,
            r.available == self.available,
    {
        let mut form = self;
        form.expansions.push(BGExpansionForm { title: None });
        form
    }

    /// The form shown when a new board game's form asks for another
    /// expansion row: the submitted values, and an empty row at the end.
    pub fn add_expansion_on_create(form: BGMultiPartForm) -> (r: BGForm)
        ensures
            r.title == Some(form.title),
            r.image_url is Some && r.image_url->0@ == ""@,
            r.min_players == Some(form.min_players),
            r.max_players == Some(form.max_players),
            r.players_no_limit == Some(is_on(form.players_no_limit)),
            r.min_playtime == Some(form.min_playtime),
            r.max_playtime == Some(form.max_playtime),
            r.playtime_no_limit == Some(is_on(form.playtime_no_limit)),
            r.available == Some(is_on(form.available)),
            r.expansions@ == expansion_rows_of(form.expansion_titles@).push(
                BGExpansionForm { title: None },
            ),
    {
        BGForm::from_multipart(form).with_new_expansion()
    }

    /// The form shown when an edited board game's form asks for another
    /// expansion row: the submitted values, the stored image, and an empty
    /// row at the end.
    pub fn add_expansion_on_update(bg: BoardGame, form: BGMultiPartForm) -> (r: BGForm)
        ensures
            r.title == Some(form.title),
            r.image_url == Some(bg.image_url),
            r.min_players == Some(form.min_players),
            r.max_players == Some(form.max_players),
            r.players_no_limit == Some(is_on(form.players_no_limit)),
            r.min_playtime == Some(form.min_playtime),
            r.max_playtime == Some(form.max_playtime),
            r.playtime_no_limit == Some(is_on(form.playtime_no_limit)),
            r.available == Some(is_on(form.available)),
            r.expansions@ == expansion_rows_of(form.expansion_titles@).push(
                BGExpansionForm { title: None },
            ),
    {
        let mut f = BGForm::from_multipart(form);
        f.image_url = Some(bg.image_url);
        f.with_new_expansion()
    }
}

impl BoardGame {
    /// The board game that a submitted form describes, with the placeholder
    /// image and no id.
    pub fn from_multipart(form: BGMultiPartForm) -> (bg: BoardGame)
        ensures
            is_boardgame_of_form(form, bg),
    {
        let exp = expansions_from_titles(&form.expansion_titles);
        let playtime_no_limit = checkbox_on(&form.playtime_no_limit);
        let players_no_limit = checkbox_on(&form.players_no_limit);
        let available = checkbox_on(&form.available);
        BoardGame {
            uid: None,
            title: form.title,
            image_url: String::from_str("assets/placeholder.webp"),
            min_players: form.min_players,
            max_players: form.max_players,
            players_no_limit,
            min_playtime: form.min_playtime,
            max_playtime: form.max_playtime,
            playtime_no_limit,
            available,
            expansions: exp,
            bgg_id: None,
        }
    }

    /// The new board game of a submitted creation form: the form's values
    /// under the id `uid`, with the uploaded image if one was saved, else the
    /// placeholder.
    pub fn from_create_form(form: BGMultiPartForm, uid: String, image_url: Option<String>) -> (bg:
        BoardGame)
        ensures
            bg.uid == Some(uid),
            image_url is Some ==> bg.image_url == image_url->0,
            image_url is None ==> bg.image_url@ == "assets/placeholder.webp"@,
            bg.title == form.title,
            bg.min_players == form.min_players,
            bg.max_players == form.max_players,
            bg.players_no_limit == is_on(form.players_no_limit),
            bg.min_playtime == form.min_playtime,
            bg.max_playtime == form.max_playtime,
            bg.playtime_no_limit == is_on(form.playtime_no_limit),
            bg.available == is_on(form.available),
            bg.expansions@ == expansions_of(form.expansion_titles@),
            bg.bgg_id is None,
    {
        let mut new_bg = BoardGame::from_multipart(form);
        new_bg.uid = Some(uid);
        match image_url {
            Some(url) => new_bg.image_url = url,
            None => {},
        }
        new_bg
    }

    /// The stored board game `self` after a submitted edit form: the form's
    /// values with the expansion rows marked for deletion removed, the id of
    /// `self`, and the newly saved image or else the stored one. `None` when
    /// a row marked for deletion does not exist.
    pub fn from_update_form(self, form: BGMultiPartForm, image_url: Option<String>) -> (r: Option<
        BoardGame,
    >)
        ensures
            r is None <==> remove_rows(form.expansion_titles@, form.meta_del_expansion@) is None,
            r matches Some(bg) ==> {
                &&& bg.uid == self.uid
                &&& (image_url is Some ==> bg.image_url == image_url->0)
                &&& (image_url is None ==> bg.image_url == self.image_url)
                &&& bg.title == form.title
                &&& bg.min_players == form.min_players
                &&& bg.max_players == form.max_players
                &&& bg.players_no_limit == is_on(form.players_no_limit)
                &&& bg.min_playtime == form.min_playtime
                &&& bg.max_playtime == form.max_playtime
                &&& bg.playtime_no_limit == is_on(form.playtime_no_limit)
                &&& bg.available == is_on(form.available)
                &&& bg.expansions@ == expansions_of(
                    remove_rows(form.expansion_titles@, form.meta_del_expansion@)->0,
                )
                &&& bg.bgg_id is None
            },
    {
        let mut form = form;
        let mut titles: Vec<String> = Vec::new();
        std::mem::swap(&mut titles, &mut form.expansion_titles);
        match remove_expansions(titles, &form.meta_del_expansion) {
            None => None,
            Some(kept) => {
                form.expansion_titles = kept;
                let mut new_bg = BoardGame::from_multipart(form);
                new_bg.uid = self.uid;
                match image_url {
                    Some(url) => new_bg.image_url = url,
                    None => new_bg.image_url = self.image_url,
                }
                Some(new_bg)
            },
        }
    }
}

/// `titles` with the rows of `indices` removed, from the last index to the
/// first; `None` when an index is past the end of the rows left at its turn.
pub fn remove_expansions(titles: Vec<String>, indices: &Vec<u8>) -> (r: Option<Vec<String>>)
    ensures
        r is None <==> remove_rows(titles@, indices@) is None,
        r is Some ==> r->0@ == remove_rows(titles@, indices@)->0,
{
    let mut rows = titles;
    let mut k = indices.len();
    proof {
        assert(indices@.take(k as int) == indices@);
    }
    while k > 0
        invariant
            k <= indices@.len(),
            remove_rows(titles@, indices@) == remove_rows(rows@, indices@.take(k as int)),
        decreases k,
    {
        let i = indices[k - 1];
        proof {
            assert(indices@.take(k as int).drop_last() == indices@.take(k - 1));
            assert(indices@.take(k as int).last() == i);
        }
        if (i as usize) < rows.len() {
            rows.remove(i as usize);
        } else {
            assert(remove_rows(rows@, indices@.take(k as int)) is None);
            return None;
        }
        k = k - 1;
    }
    Some(rows)
}

/// Removing rows takes away one row for each index.
pub proof fn law_remove_rows_length(titles: Seq<String>, indices: Seq<u8>)
    requires
        remove_rows(titles, indices) is Some,
    ensures
        remove_rows(titles, indices)->0.len() == titles.len() - indices.len(),
    decreases indices.len(),
{
    if indices.len() > 0 {
        law_remove_rows_length(titles.remove(indices.last() as int), indices.drop_last());
    }
}

/// Showing a submitted form again and showing the board game it describes
/// give the same form, but for the image: the submitted form shows none, the
/// board game its placeholder.
pub proof fn law_form_views_agree(
    f: BGMultiPartForm,
    bg: BoardGame,
    shown: BGForm,
    edited: BGForm,
)
    requires
        is_boardgame_of_form(f, bg),
        is_form_of_multipart(f, shown),
        is_form_of_boardgame(bg, edited),
    ensures
        shown.title == edited.title,
        shown.min_players == edited.min_players,
        shown.max_players == edited.max_players,
        shown.players_no_limit == edited.players_no_limit,
        shown.min_playtime == edited.min_playtime,
        shown.max_playtime == edited.max_playtime,
        shown.playtime_no_limit == edited.playtime_no_limit,
        shown.available == edited.available,
        shown.expansions@ == edited.expansions@,
        shown.image_url->0@ == ""@,
        edited.image_url->0@ == "assets/placeholder.webp"@,
{
    assert(titles_of(expansions_of(f.expansion_titles@)) =~= f.expansion_titles@);
}

} // verus!
