//! The button layouts that the bot attaches to its messages.  A layout is a
//! list of rows of buttons; a button shows a text and either sends callback
//! data or starts an inline query.
use vstd::prelude::*;
use crate::callback_data::{CallbackData, CallbackDataView, FavoriteAction, TagOperationView};
use crate::chars::{lists, push_str};
use crate::emoji::Emoji;
use crate::errors::byte_len;
use crate::inline_data::{InlineQueryData, InlineQueryView, SetOperation, SimilarityAspect, TagKind};
use crate::model::StickerOrder;
use crate::tag_layout::{tag_rows_exec, button_rows_exec, tagging_view, lock_button};

verus! {

/// What a button does when pressed.
#[derive(Debug, Clone, PartialEq, Eq)]
pub enum ButtonAction {
    /// Sends the callback data to the bot.
    Callback(CallbackData),
    /// Starts an inline query in the current chat.
    QueryInCurrentChat(InlineQueryData),
    /// Lets the user pick a chat and starts the inline query there.
    QueryInOtherChat(String),
}

/// A button of an inline keyboard.
#[derive(Debug, Clone, PartialEq, Eq)]
pub struct Button {
    pub text: String,
    pub action: ButtonAction,
}

/// What a button does, as plain values.
pub enum ActionView {
    Callback(CallbackDataView),
    QueryInCurrentChat(InlineQueryView),
    QueryInOtherChat(Seq<char>),
}

/// A button as plain values.
pub struct ButtonView {
    pub text: Seq<char>,
    pub action: ActionView,
}

impl View for Button {
    type V = ButtonView;

    open spec fn view(&self) -> ButtonView {
        ButtonView {
            text: self.text@,
            action: match self.action {
                ButtonAction::Callback(d) => ActionView::Callback(d@),
                ButtonAction::QueryInCurrentChat(q) => ActionView::QueryInCurrentChat(q@),
                ButtonAction::QueryInOtherChat(s) => ActionView::QueryInOtherChat(s@),
            },
        }
    }
}

/// A layout by the views of its buttons.
pub open spec fn layout_view(rows: Seq<Vec<Button>>) -> Seq<Seq<ButtonView>> {
    rows.map_values(|row: Vec<Button>| row_view(row))
}

/// A button that sends callback data.
pub open spec fn callback_button(text: Seq<char>, d: CallbackDataView) -> ButtonView {
    ButtonView { text, action: ActionView::Callback(d) }
}

/// A button that starts an inline query in the current chat.
pub open spec fn query_button(text: Seq<char>, q: InlineQueryView) -> ButtonView {
    ButtonView { text, action: ActionView::QueryInCurrentChat(q) }
}

fn callback(text: &str, d: CallbackData) -> (b: Button)
    ensures
        b@ == callback_button(text@, d@),
{
    Button { text: text.to_owned(), action: ButtonAction::Callback(d) }
}

fn query(text: &str, q: InlineQueryData) -> (b: Button)
    ensures
        b@ == query_button(text@, q@),
{
    Button { text: text.to_owned(), action: ButtonAction::QueryInCurrentChat(q) }
}

/// A row of buttons by their views.
pub open spec fn row_view(row: Vec<Button>) -> Seq<ButtonView> {
    row@.map_values(|b: Button| b@)
}

fn one(a: Button) -> (r: Vec<Button>)
    ensures
        row_view(r) == seq![a@],
{
    let mut r: Vec<Button> = Vec::new();
    r.push(a);
    proof {
        assert(row_view(r) =~= seq![a@]);
    }
    r
}

fn two(a: Button, b: Button) -> (r: Vec<Button>)
    ensures
        row_view(r) == seq![a@, b@],
{
    let mut r: Vec<Button> = Vec::new();
    r.push(a);
    r.push(b);
    proof {
        assert(row_view(r) =~= seq![a@, b@]);
    }
    r
}

fn layout1(a: Vec<Button>) -> (r: Vec<Vec<Button>>)
    ensures
        layout_view(r@) == seq![row_view(a)],
{
    let mut r: Vec<Vec<Button>> = Vec::new();
    r.push(a);
    proof {
        assert(layout_view(r@) =~= seq![row_view(a)]);
    }
    r
}

fn three(a: Button, b: Button, c: Button) -> (r: Vec<Button>)
    ensures
        row_view(r) == seq![a@, b@, c@],
{
    let mut r: Vec<Button> = Vec::new();
    r.push(a);
    r.push(b);
    r.push(c);
    proof {
        assert(row_view(r) =~= seq![a@, b@, c@]);
    }
    r
}

fn layout3(a: Vec<Button>, b: Vec<Button>, c: Vec<Button>) -> (r: Vec<Vec<Button>>)
    ensures
        layout_view(r@) == seq![row_view(a), row_view(b), row_view(c)],
{
    let mut r: Vec<Vec<Button>> = Vec::new();
    r.push(a);
    r.push(b);
    r.push(c);
    proof {
        assert(layout_view(r@) =~= seq![row_view(a), row_view(b), row_view(c)]);
    }
    r
}

/// The text of a button that removes a tag from a list: `Remove "<tag>"`
/// followed by `suffix`.
pub open spec fn remove_text(tag: Seq<char>, suffix: Seq<char>) -> Seq<char> {
    "Remove \""@ + tag + "\""@ + suffix
}

fn remove_button_text(tag: &String, suffix: &str) -> (r: String)
    ensures
        r@ == remove_text(tag@, suffix@),
{
    let mut r = String::new();
    push_str(&mut r, "Remove \"");
    push_str(&mut r, tag.as_str());
    push_str(&mut r, "\"");
    push_str(&mut r, suffix);
    proof {
        assert(Seq::<char>::empty() + "Remove \""@ + tag@ + "\""@ + suffix@ =~= remove_text(tag@, suffix@));
    }
    r
}


/// The tabs of a sticker's pages.
#[derive(Debug, Clone, Copy, PartialEq, Eq)]
pub enum StickerTab {
    Owner,
    StickerSet,
    Sticker,
    Tags,
}

/// The label of a tab.
pub open spec fn tab_label(tab: StickerTab) -> Seq<char> {
    match tab {
        StickerTab::Tags => "🏷 Tags"@,
        StickerTab::Sticker => "✨️ Sticker"@,
        StickerTab::StickerSet => "️🗂️ Set"@,
        StickerTab::Owner => "️👤 Owner"@,
    }
}

/// The page that a tab opens.
pub open spec fn tab_action(tab: StickerTab, sticker_id: Seq<char>) -> CallbackDataView {
    match tab {
        StickerTab::Tags => CallbackDataView::Sticker(sticker_id, None),
        StickerTab::Sticker => CallbackDataView::StickerExplorePage(sticker_id),
        StickerTab::StickerSet => CallbackDataView::StickerSetPage(sticker_id),
        StickerTab::Owner => CallbackDataView::OwnerPage(sticker_id),
    }
}

/// The button of a tab; the open tab's label is marked `▸ … ◂`.
pub open spec fn tab_button(tab: StickerTab, active: StickerTab, sticker_id: Seq<char>) -> ButtonView {
    callback_button(
        if tab == active { "▸ "@ + tab_label(tab) + " ◂"@ } else { tab_label(tab) },
        tab_action(tab, sticker_id),
    )
}

/// The row of a sticker's tabs: tags, sticker, set, owner.
pub open spec fn sticker_tabs_view(active: StickerTab, sticker_id: Seq<char>) -> Seq<ButtonView> {
    seq![
        tab_button(StickerTab::Tags, active, sticker_id),
        tab_button(StickerTab::Sticker, active, sticker_id),
        tab_button(StickerTab::StickerSet, active, sticker_id),
        tab_button(StickerTab::Owner, active, sticker_id),
    ]
}

fn tab_button_exec(tab: StickerTab, active: StickerTab, sticker_id: &str) -> (b: Button)
    ensures
        b@ == tab_button(tab, active, sticker_id@),
{
    let label = match tab {
        StickerTab::Tags => "🏷 Tags",
        StickerTab::Sticker => "✨️ Sticker",
        StickerTab::StickerSet => "️🗂️ Set",
        StickerTab::Owner => "️👤 Owner",
    };
    let same = match (tab, active) {
        (StickerTab::Tags, StickerTab::Tags) => true,
        (StickerTab::Sticker, StickerTab::Sticker) => true,
        (StickerTab::StickerSet, StickerTab::StickerSet) => true,
        (StickerTab::Owner, StickerTab::Owner) => true,
        _ => false,
    };
    let mut text = String::new();
    if same {
        push_str(&mut text, "▸ ");
        push_str(&mut text, label);
        push_str(&mut text, " ◂");
        proof {
            assert(text@ =~= "▸ "@ + tab_label(tab) + " ◂"@);
        }
    } else {
        push_str(&mut text, label);
        proof {
            assert(text@ =~= tab_label(tab));
        }
    }
    let id = sticker_id.to_owned();
    let action = match tab {
        StickerTab::Tags => CallbackData::Sticker { sticker_id: id, operation: None },
        StickerTab::Sticker => CallbackData::StickerExplorePage { sticker_id: id },
        StickerTab::StickerSet => CallbackData::StickerSetPage { sticker_id: id },
        StickerTab::Owner => CallbackData::OwnerPage { sticker_id: id },
    };
    Button { text, action: ButtonAction::Callback(action) }
}

/// The row of a sticker's tabs, with `active` marked.
pub fn sticker_tabs(active: StickerTab, sticker_id: &str) -> (r: Vec<Button>)
    ensures
        row_view(r) == sticker_tabs_view(active, sticker_id@),
{
    let mut r: Vec<Button> = Vec::new();
    r.push(tab_button_exec(StickerTab::Tags, active, sticker_id));
    r.push(tab_button_exec(StickerTab::Sticker, active, sticker_id));
    r.push(tab_button_exec(StickerTab::StickerSet, active, sticker_id));
    r.push(tab_button_exec(StickerTab::Owner, active, sticker_id));
    proof {
        assert(row_view(r) =~= sticker_tabs_view(active, sticker_id@));
    }
    r
}

/// The layouts of the bot's messages.
pub struct Keyboard;

impl Keyboard {
    /// The blacklist: back to the settings, one row per tag that removes
    /// it, and a button that searches tags to add.
    pub fn blacklist(current_blacklist: &Vec<String>) -> (r: Vec<Vec<Button>>)
        ensures
            r@.len() == current_blacklist@.len() + 2,
            layout_view(r@)[0] == seq![callback_button("🔙 Settings"@, CallbackDataView::Settings)],
            forall|i: int| 0 <= i < current_blacklist@.len() ==> #[trigger] layout_view(r@)[i + 1] == seq![
                callback_button(remove_text(current_blacklist@[i]@, ""@), CallbackDataView::RemoveBlacklistedTag(current_blacklist@[i]@)),
            ],
            layout_view(r@)[current_blacklist@.len() + 1int] == seq![
                query_button("Add tag"@, InlineQueryView::SearchTagsForBlacklist(Seq::empty())),
            ],
    {
        let mut keyboard: Vec<Vec<Button>> = Vec::new();
        keyboard.push(one(callback("🔙 Settings", CallbackData::Settings)));
        let mut i: usize = 0;
        while i < current_blacklist.len()
            invariant
                0 <= i <= current_blacklist@.len(),
                keyboard@.len() == i + 1,
                layout_view(keyboard@)[0] == seq![callback_button("🔙 Settings"@, CallbackDataView::Settings)],
                forall|j: int| 0 <= j < i ==> #[trigger] layout_view(keyboard@)[j + 1] == seq![
                    callback_button(remove_text(current_blacklist@[j]@, ""@), CallbackDataView::RemoveBlacklistedTag(current_blacklist@[j]@)),
                ],
            decreases current_blacklist@.len() - i,
        {
            let tag = &current_blacklist[i];
            let text = remove_button_text(tag, "");
            let b = Button { text, action: ButtonAction::Callback(CallbackData::RemoveBlacklistedTag(tag.clone())) };
            let ghost before = keyboard@;
            let row = one(b);
            keyboard.push(row);
            proof {
                assert(layout_view(keyboard@)[i + 1] == row_view(row));
                assert forall|j: int| 0 <= j < i + 1 implies #[trigger] layout_view(keyboard@)[j + 1] == seq![
                    callback_button(remove_text(current_blacklist@[j]@, ""@), CallbackDataView::RemoveBlacklistedTag(current_blacklist@[j]@)),
                ] by {
                    if j < i {
                        assert(keyboard@[j + 1] == before[j + 1]);
                        assert(layout_view(keyboard@)[j + 1] == layout_view(before)[j + 1]);
                    }
                }
                assert(keyboard@[0] == before[0]);
            }
            i = i + 1;
        }
        let empty: Vec<String> = Vec::new();
        let add = query("Add tag", InlineQueryData::blacklist_query(empty));
        proof {
            assert(empty.deep_view() =~= Seq::<Seq<char>>::empty());
        }
        let ghost before = keyboard@;
        keyboard.push(one(add));
        proof {
            assert forall|j: int| 0 <= j < current_blacklist@.len() implies #[trigger] layout_view(keyboard@)[j + 1] == seq![
                callback_button(remove_text(current_blacklist@[j]@, ""@), CallbackDataView::RemoveBlacklistedTag(current_blacklist@[j]@)),
            ] by {
                assert(keyboard@[j + 1] == before[j + 1]);
                assert(layout_view(keyboard@)[j + 1] == layout_view(before)[j + 1]);
            }
            assert(keyboard@[0] == before[0]);
        }
        keyboard
    }

    /// The first step of creating a tag: enter its name.
    pub fn tag_creator_initial() -> (r: Vec<Vec<Button>>)
        ensures
            layout_view(r@) == seq![seq![query_button("Name input"@, InlineQueryView::TagCreatorTagId(Seq::empty(), TagKind::Main))]],
    {
        layout1(one(query("Name input", InlineQueryData::tag_creator(String::new(), TagKind::Main))))
    }

    /// Continuous tag mode: search tags to add or to remove, one row per
    /// listed tag that takes it off the list, and a way out where asked.
    pub fn make_continuous_tag_keyboard(show_cancel: bool, add_tags: &Vec<String>, remove_tags: &Vec<String>) -> (r: Vec<Vec<Button>>)
        ensures
            r@.len() == 2 + add_tags@.len() + remove_tags@.len() + (if show_cancel { 1int } else { 0int }),
            layout_view(r@)[0] == seq![query_button("Select tag"@, InlineQueryView::SearchTagsForContinuousTagMode(Seq::empty(), SetOperation::Tag))],
            layout_view(r@)[1] == seq![query_button("Select tag (untag)"@, InlineQueryView::SearchTagsForContinuousTagMode(Seq::empty(), SetOperation::Untag))],
            forall|i: int| 0 <= i < add_tags@.len() + remove_tags@.len() ==> #[trigger] layout_view(r@)[i + 2] == seq![
                callback_button(
                    remove_text((add_tags@ + remove_tags@)[i]@, " from the list"@),
                    CallbackDataView::RemoveContinuousTag((add_tags@ + remove_tags@)[i]@),
                ),
            ],
            show_cancel ==> layout_view(r@)[r@.len() - 1] == seq![callback_button("❌ Exit Continuous Tag Mode"@, CallbackDataView::ExitDialog)],
    {
        let e1: Vec<Vec<String>> = Vec::new();
        let e2: Vec<Vec<String>> = Vec::new();
        proof {
            assert(e1.deep_view() =~= Seq::<Seq<Seq<char>>>::empty());
            assert(e2.deep_view() =~= Seq::<Seq<Seq<char>>>::empty());
        }
        let mut keyboard: Vec<Vec<Button>> = Vec::new();
        keyboard.push(one(query("Select tag", InlineQueryData::continuous_tag_mode(e1, SetOperation::Tag))));
        keyboard.push(one(query("Select tag (untag)", InlineQueryData::continuous_tag_mode(e2, SetOperation::Untag))));
        let ghost all = add_tags@ + remove_tags@;
        let ghost head0 = layout_view(keyboard@)[0];
        let ghost head1 = layout_view(keyboard@)[1];
        let mut i: usize = 0;
        while i < add_tags.len()
            invariant
                0 <= i <= add_tags@.len(),
                all == add_tags@ + remove_tags@,
                keyboard@.len() == i + 2,
                layout_view(keyboard@)[0] == head0,
                layout_view(keyboard@)[1] == head1,
                forall|j: int| 0 <= j < i ==> #[trigger] layout_view(keyboard@)[j + 2] == seq![
                    callback_button(remove_text(all[j]@, " from the list"@), CallbackDataView::RemoveContinuousTag(all[j]@)),
                ],
            decreases add_tags@.len() - i,
        {
            let tag = &add_tags[i];
            assert(*tag == all[i as int]);
            let text = remove_button_text(tag, " from the list");
            let b = Button { text, action: ButtonAction::Callback(CallbackData::RemoveContinuousTag(tag.clone())) };
            let ghost before = keyboard@;
            let row = one(b);
            keyboard.push(row);
            proof {
                assert(layout_view(keyboard@)[i + 2] == row_view(row));
                assert forall|j: int| 0 <= j < i + 1 implies #[trigger] layout_view(keyboard@)[j + 2] == seq![
                    callback_button(remove_text(all[j]@, " from the list"@), CallbackDataView::RemoveContinuousTag(all[j]@)),
                ] by {
                    if j < i {
                        assert(keyboard@[j + 2] == before[j + 2]);
                        assert(layout_view(keyboard@)[j + 2] == layout_view(before)[j + 2]);
                    }
                }
                assert(keyboard@[0] == before[0]);
                assert(keyboard@[1] == before[1]);
            }
            i = i + 1;
        }
        let mut k: usize = 0;
        while k < remove_tags.len()
            invariant
                0 <= k <= remove_tags@.len(),
                all == add_tags@ + remove_tags@,
                keyboard@.len() == add_tags@.len() + k + 2,
                layout_view(keyboard@)[0] == head0,
                layout_view(keyboard@)[1] == head1,
                forall|j: int| 0 <= j < add_tags@.len() + k ==> #[trigger] layout_view(keyboard@)[j + 2] == seq![
                    callback_button(remove_text(all[j]@, " from the list"@), CallbackDataView::RemoveContinuousTag(all[j]@)),
                ],
            decreases remove_tags@.len() - k,
        {
            let tag = &remove_tags[k];
            assert(*tag == all[add_tags@.len() + k]);
            let text = remove_button_text(tag, " from the list");
            let b = Button { text, action: ButtonAction::Callback(CallbackData::RemoveContinuousTag(tag.clone())) };
            let ghost before = keyboard@;
            let row = one(b);
            keyboard.push(row);
            proof {
                assert(layout_view(keyboard@)[add_tags@.len() + k + 2] == row_view(row));
                assert forall|j: int| 0 <= j < add_tags@.len() + k + 1 implies #[trigger] layout_view(keyboard@)[j + 2] == seq![
                    callback_button(remove_text(all[j]@, " from the list"@), CallbackDataView::RemoveContinuousTag(all[j]@)),
                ] by {
                    if j < add_tags@.len() + k {
                        assert(keyboard@[j + 2] == before[j + 2]);
                        assert(layout_view(keyboard@)[j + 2] == layout_view(before)[j + 2]);
                    }
                }
                assert(keyboard@[0] == before[0]);
                assert(keyboard@[1] == before[1]);
            }
            k = k + 1;
        }
        if show_cancel {
            let ghost before = keyboard@;
            keyboard.push(one(callback("❌ Exit Continuous Tag Mode", CallbackData::ExitDialog)));
            proof {
                assert forall|j: int| 0 <= j < all.len() implies #[trigger] layout_view(keyboard@)[j + 2] == seq![
                    callback_button(remove_text(all[j]@, " from the list"@), CallbackDataView::RemoveContinuousTag(all[j]@)),
                ] by {
                    assert(keyboard@[j + 2] == before[j + 2]);
                    assert(layout_view(keyboard@)[j + 2] == layout_view(before)[j + 2]);
                }
                assert(keyboard@[0] == before[0]);
                assert(keyboard@[1] == before[1]);
            }
        }
        keyboard
    }

    /// A set: add tags to all its stickers, or remove tags from them.
    pub fn make_set_keyboard(set_name: String) -> (r: Vec<Vec<Button>>)
        ensures
            layout_view(r@) == seq![seq![
                query_button("Add more tags to the set"@, InlineQueryView::SearchTagsForStickerSet(Seq::empty(), set_name@, SetOperation::Tag)),
                query_button("Remove tags from the set"@, InlineQueryView::SearchTagsForStickerSet(Seq::empty(), set_name@, SetOperation::Untag)),
            ]],
    {
        let e1: Vec<Vec<String>> = Vec::new();
        let e2: Vec<Vec<String>> = Vec::new();
        proof {
            assert(e1.deep_view() =~= Seq::<Seq<Seq<char>>>::empty());
            assert(e2.deep_view() =~= Seq::<Seq<Seq<char>>>::empty());
        }
        let a = query("Add more tags to the set", InlineQueryData::set_operation(set_name.as_str(), e1, SetOperation::Tag));
        let b = query("Remove tags from the set", InlineQueryData::set_operation(set_name.as_str(), e2, SetOperation::Untag));
        layout1(two(a, b))
    }

    /// Semantic search, with an example query.
    pub fn embedding() -> (r: Vec<Vec<Button>>)
        ensures
            layout_view(r@) == seq![seq![query_button("Semantic search (⚠️ ignores blacklist)"@, InlineQueryView::SearchByEmbedding("stupid inside box"@))]],
    {
        layout1(one(query("Semantic search (⚠️ ignores blacklist)", InlineQueryData::embedding("stupid inside box".to_owned()))))
    }

    /// The start menu: help and settings, an overview of the features, and
    /// using the bot in another chat.
    pub fn make_main_keyboard() -> (r: Vec<Vec<Button>>)
        ensures
            layout_view(r@) == seq![
                seq![callback_button("Help"@, CallbackDataView::Help), callback_button("Settings"@, CallbackDataView::Settings)],
                seq![callback_button("What else can you do?"@, CallbackDataView::FeatureOverview)],
                seq![ButtonView { text: "Use me in a chat"@, action: ActionView::QueryInOtherChat(""@) }],
            ],
    {
        let a = callback("Help", CallbackData::Help);
        let b = callback("Settings", CallbackData::Settings);
        let c = callback("What else can you do?", CallbackData::FeatureOverview);
        let d = Button { text: "Use me in a chat".to_owned(), action: ButtonAction::QueryInOtherChat("".to_owned()) };
        layout3(two(a, b), one(c), one(d))
    }

    /// An emoji: list its stickers.
    pub fn emoji_article(emoji: &Emoji) -> (r: Vec<Vec<Button>>)
        ensures
            layout_view(r@) == seq![seq![query_button("List stickers (ignores blacklist)"@, InlineQueryView::SearchStickers(Seq::empty(), seq![emoji@]))]],
    {
        let tags: Vec<String> = Vec::new();
        let mut emojis: Vec<Emoji> = Vec::new();
        emojis.push(emoji.duplicate());
        proof {
            assert(tags.deep_view() =~= Seq::<Seq<char>>::empty());
            assert(emojis.deep_view() =~= seq![emoji@]);
        }
        layout1(one(query("List stickers (ignores blacklist)", InlineQueryData::search_emoji(tags, emojis))))
    }

    /// Leave the current mode.
    pub fn dialog_exit() -> (r: Vec<Vec<Button>>)
        ensures
            layout_view(r@) == seq![seq![callback_button("❌ Exit Mode"@, CallbackDataView::ExitDialog)]],
    {
        layout1(one(callback("❌ Exit Mode", CallbackData::ExitDialog)))
    }

    /// The other informations: back to the start, and the help tabs with
    /// this tab marked.
    pub fn info() -> (r: Vec<Vec<Button>>)
        ensures
            layout_view(r@) == seq![
                seq![callback_button("🔙 Start"@, CallbackDataView::Start)],
                seq![callback_button("Commands"@, CallbackDataView::Help)],
                seq![callback_button("▸ Other Infos ◂"@, CallbackDataView::Info)],
            ],
    {
        layout3(
            one(callback("🔙 Start", CallbackData::Start)),
            one(callback("Commands", CallbackData::Help)),
            one(callback("▸ Other Infos ◂", CallbackData::Info)),
        )
    }

    /// The help: back to the start, and the help tabs with this tab marked.
    pub fn make_help_keyboard() -> (r: Vec<Vec<Button>>)
        ensures
            layout_view(r@) == seq![
                seq![callback_button("🔙 Start"@, CallbackDataView::Start)],
                seq![callback_button("▸ Commands ◂"@, CallbackDataView::Help)],
                seq![callback_button("Other Infos"@, CallbackDataView::Info)],
            ],
    {
        layout3(
            one(callback("🔙 Start", CallbackData::Start)),
            one(callback("▸ Commands ◂", CallbackData::Help)),
            one(callback("Other Infos", CallbackData::Info)),
        )
    }

    /// The tagging keyboard of a sticker.  Per current tag, `count_rank`
    /// holds the rank of a character-count tag among the counts (none for
    /// other tags), `is_rating` whether it is a rating tag, and
    /// `category_emoji` the emoji of its category; per suggestion,
    /// `suggested_is_count_or_rating` whether it is a count or a rating tag.
    /// `all_count_tags` and `all_rating_tags` are offered where the sticker
    /// lacks such a tag.  The row of the sticker's tabs comes first, with
    /// the tags tab open.
    pub fn tagging(
        current_tags: &Vec<String>,
        sticker_unique_id: &str,
        suggested_tags: &Vec<String>,
        tagging_locked: bool,
        is_continuous_tag: bool,
        count_rank: &Vec<Option<u8>>,
        is_rating: &Vec<bool>,
        suggested_is_count_or_rating: &Vec<bool>,
        all_count_tags: &Vec<String>,
        all_rating_tags: &Vec<String>,
        category_emoji: &Vec<Option<String>>,
    ) -> (r: Vec<Vec<Button>>)
        requires
            count_rank@.len() == current_tags@.len(),
            is_rating@.len() == current_tags@.len(),
            category_emoji@.len() == current_tags@.len(),
            suggested_is_count_or_rating@.len() == suggested_tags@.len(),
        ensures
            layout_view(r@) == tagging_view(
                current_tags@,
                sticker_unique_id@,
                suggested_tags.deep_view(),
                tagging_locked,
                is_continuous_tag,
                count_rank@,
                is_rating@,
                suggested_is_count_or_rating@,
                all_count_tags.deep_view(),
                all_rating_tags.deep_view(),
                category_emoji@,
            ),
    {
        let (rows, complete) = tag_rows_exec(
            current_tags,
            suggested_tags,
            count_rank,
            is_rating,
            suggested_is_count_or_rating,
            all_count_tags,
            all_rating_tags,
        );
        let mut tag_buttons = button_rows_exec(&rows, current_tags, sticker_unique_id, category_emoji);
        let mut keyboard: Vec<Vec<Button>> = Vec::new();
        let tabs = sticker_tabs(StickerTab::Tags, sticker_unique_id);
        keyboard.push(tabs);
        let ghost tag_rows_view = layout_view(tag_buttons@);
        keyboard.append(&mut tag_buttons);
        proof {
            assert(layout_view(keyboard@) =~= seq![row_view(tabs)] + tag_rows_view);
        }
        if !complete {
            return keyboard;
        }
        let ghost base = layout_view(keyboard@);
        keyboard.push(one(query("Add more tags to this sticker", InlineQueryData::empty_sticker_query(sticker_unique_id))));
        let ghost with_more = layout_view(keyboard@);
        proof {
            assert(with_more =~= base + seq![seq![query_button("Add more tags to this sticker"@, InlineQueryView::SearchTagsForSticker(Seq::empty(), sticker_unique_id@))]]);
        }
        let show_lock = tagging_locked || contains_text(current_tags, "meta_sticker");
        if show_lock {
            let b = if tagging_locked {
                callback("🔒 Bulk Tagging Locked", CallbackData::SetLock { sticker_id: sticker_unique_id.to_owned(), lock: false })
            } else {
                callback("🔓 Bulk Tagging Unlocked", CallbackData::SetLock { sticker_id: sticker_unique_id.to_owned(), lock: true })
            };
            keyboard.push(one(b));
            proof {
                assert(b@ == lock_button(sticker_unique_id@, tagging_locked));
            }
        }
        let ghost with_lock = layout_view(keyboard@);
        proof {
            if show_lock {
                assert(with_lock =~= with_more + seq![seq![lock_button(sticker_unique_id@, tagging_locked)]]);
            } else {
                assert(with_lock =~= with_more + Seq::<Seq<ButtonView>>::empty());
            }
        }
        if is_continuous_tag {
            keyboard.push(one(callback("❌ Exit Continuous Tag Mode", CallbackData::ExitDialog)));
        }
        proof {
            if is_continuous_tag {
                assert(layout_view(keyboard@) =~= with_lock + seq![seq![callback_button("❌ Exit Continuous Tag Mode"@, CallbackDataView::ExitDialog)]]);
            } else {
                assert(layout_view(keyboard@) =~= with_lock + Seq::<Seq<ButtonView>>::empty());
            }
        }
        keyboard
    }

    /// The recommendation mode for a sticker: more or less like it (marked
    /// where it already is among the similar or dissimilar stickers), the
    /// favorite button and adding it to a set, searches for similar stickers
    /// and sets, and the recommendations.
    pub fn recommender(sticker_id: &str, similar: &Vec<String>, dissimilar: &Vec<String>, is_favorite: bool) -> (r: Vec<Vec<Button>>)
        ensures
            layout_view(r@) == seq![
                seq![
                    callback_button(
                        if lists(similar@, sticker_id@) { "✅ More like this"@ } else { "More like this"@ },
                        CallbackDataView::ToggleRecommendSticker(sticker_id@, true),
                    ),
                    callback_button(
                        if lists(dissimilar@, sticker_id@) { "✅ Less like this"@ } else { "Less like this"@ },
                        CallbackDataView::ToggleRecommendSticker(sticker_id@, false),
                    ),
                ],
                seq![
                    if is_favorite {
                        callback_button("⭐ Favorite"@, CallbackDataView::FavoriteSticker(sticker_id@, FavoriteAction::Unfavorite))
                    } else {
                        callback_button("⚫ Mark as favorite"@, CallbackDataView::FavoriteSticker(sticker_id@, FavoriteAction::Favorite))
                    },
                    query_button("🔧 Add to your set"@, InlineQueryView::AddToUserSet(sticker_id@, None)),
                ],
                seq![
                    query_button("🎨 Color"@, InlineQueryView::ListSimilarStickers(sticker_id@, SimilarityAspect::Color)),
                    query_button("🦄 Similar"@, InlineQueryView::ListSimilarStickers(sticker_id@, SimilarityAspect::Embedding)),
                    query_button("🪞 Sets"@, InlineQueryView::ListOverlappingSets(sticker_id@)),
                ],
                seq![query_button("🪄 Recommend"@, InlineQueryView::ListRecommendationModeRecommendations)],
            ],
    {
        let more = if contains_text(similar, sticker_id) { "✅ More like this" } else { "More like this" };
        let less = if contains_text(dissimilar, sticker_id) { "✅ Less like this" } else { "Less like this" };
        let row0 = two(
            callback(more, CallbackData::ToggleRecommendSticker { sticker_id: sticker_id.to_owned(), positive: true }),
            callback(less, CallbackData::ToggleRecommendSticker { sticker_id: sticker_id.to_owned(), positive: false }),
        );
        let row1 = two(
            favorite_button(is_favorite, sticker_id),
            query("🔧 Add to your set", InlineQueryData::add_to_user_set(sticker_id.to_owned())),
        );
        let row2 = three(
            query("🎨 Color", InlineQueryData::similar(sticker_id, SimilarityAspect::Color)),
            query("🦄 Similar", InlineQueryData::similar(sticker_id, SimilarityAspect::Embedding)),
            query("🪞 Sets", InlineQueryData::overlapping_sets(sticker_id.to_owned())),
        );
        let row3 = one(query("🪄 Recommend", InlineQueryData::recommendations()));
        let mut r: Vec<Vec<Button>> = Vec::new();
        r.push(row0);
        r.push(row1);
        r.push(row2);
        r.push(row3);
        proof {
            assert(layout_view(r@) =~= seq![row_view(row0), row_view(row1), row_view(row2), row_view(row3)]);
        }
        r
    }

    /// A sticker shown while creating a tag: use it as an example of the
    /// tag, marked where it already is one.
    pub fn tag_creator_sticker(example_sticker_ids: &Vec<String>, sticker_id: &str) -> (r: Vec<Vec<Button>>)
        ensures
            layout_view(r@) == seq![seq![callback_button(
                if lists(example_sticker_ids@, sticker_id@) { "✅ Use as example"@ } else { "Use as example"@ },
                CallbackDataView::ToggleExampleSticker(sticker_id@),
            )]],
    {
        let text = if contains_text(example_sticker_ids, sticker_id) { "✅ Use as example" } else { "Use as example" };
        layout1(one(callback(text, CallbackData::ToggleExampleSticker { sticker_id: sticker_id.to_owned() })))
    }

    /// The settings: back to the start, switch the result order (the button
    /// names the order that it switches to), and the blacklist.
    pub fn make_settings_keyboard(order: StickerOrder) -> (r: Vec<Vec<Button>>)
        ensures
            layout_view(r@) == seq![
                seq![callback_button("🔙 Start"@, CallbackDataView::Start)],
                seq![match order {
                    StickerOrder::LatestFirst => callback_button("🔀 Change Ordering"@, CallbackDataView::SetOrder(StickerOrder::Random)),
                    StickerOrder::Random => callback_button("🆕 Change Ordering"@, CallbackDataView::SetOrder(StickerOrder::LatestFirst)),
                }],
                seq![callback_button("Blacklist"@, CallbackDataView::Blacklist)],
            ],
    {
        let b = match order {
            StickerOrder::LatestFirst => callback("🔀 Change Ordering", CallbackData::SetOrder(StickerOrder::Random)),
            StickerOrder::Random => callback("🆕 Change Ordering", CallbackData::SetOrder(StickerOrder::LatestFirst)),
        };
        layout3(one(callback("🔙 Start", CallbackData::Start)), one(b), one(callback("Blacklist", CallbackData::Blacklist)))
    }
}

/// The favorite button of a sticker: it takes the sticker off the
/// favorites where it is one, else marks it.
pub fn favorite_button(is_favorite: bool, sticker_id: &str) -> (b: Button)
    ensures
        b@ == (if is_favorite {
            callback_button("⭐ Favorite"@, CallbackDataView::FavoriteSticker(sticker_id@, FavoriteAction::Unfavorite))
        } else {
            callback_button("⚫ Mark as favorite"@, CallbackDataView::FavoriteSticker(sticker_id@, FavoriteAction::Favorite))
        }),
{
    if is_favorite {
        callback("⭐ Favorite", CallbackData::FavoriteSticker { sticker_id: sticker_id.to_owned(), operation: FavoriteAction::Unfavorite })
    } else {
        callback("⚫ Mark as favorite", CallbackData::FavoriteSticker { sticker_id: sticker_id.to_owned(), operation: FavoriteAction::Favorite })
    }
}

/// Whether one of the strings is `t`.
pub(crate) fn contains_text(v: &Vec<String>, t: &str) -> (r: bool)
    ensures
        r == lists(v@, t@),
{
    let mut i: usize = 0;
    while i < v.len()
        invariant
            0 <= i <= v@.len(),
            forall|j: int| 0 <= j < i ==> v@[j]@ != t@,
        decreases v@.len() - i,
    {
        if crate::command::text_eq(v[i].as_str(), t) {
            return true;
        }
        i = i + 1;
    }
    false
}

/// The button of a tag in the tagging keyboard: a tag that the sticker has
/// shows its category's emoji (or ✅ where it has none) and removes the
/// tag; any other tag shows as it is and adds it.
pub fn tag_to_button(tag: &str, current_tags: &Vec<String>, sticker_unique_id: &str, category_emoji: Option<&str>) -> (b: Button)
    ensures
        b@ == (if lists(current_tags@, tag@) {
            callback_button(
                (match category_emoji { Some(e) => e@, None => "✅"@ }) + seq![' '] + tag@,
                CallbackDataView::Sticker(sticker_unique_id@, Some(TagOperationView::Untag(tag@))),
            )
        } else {
            callback_button(tag@, CallbackDataView::Sticker(sticker_unique_id@, Some(TagOperationView::Tag(tag@))))
        }),
{
    let tagged = contains_text(current_tags, tag);
    if tagged {
        let mut text = String::new();
        match category_emoji {
            Some(e) => push_str(&mut text, e),
            None => push_str(&mut text, "✅"),
        }
        crate::chars::push_char(&mut text, ' ');
        push_str(&mut text, tag);
        proof {
            let e = match category_emoji { Some(e) => e@, None => "✅"@ };
            assert((Seq::<char>::empty() + e).push(' ') + tag@ =~= e + seq![' '] + tag@);
        }
        Button { text, action: ButtonAction::Callback(CallbackData::untag_sticker(sticker_unique_id, tag)) }
    } else {
        Button { text: tag.to_owned(), action: ButtonAction::Callback(CallbackData::tag_sticker(sticker_unique_id, tag)) }
    }
}

/// The longest tag text (in bytes, icon included) that a row of `n`
/// buttons has room for.
pub open spec fn max_tag_len(n: int) -> int {
    if n <= 1 { 9999 } else if n == 2 { 20 } else if n == 3 { 12 } else if n == 4 { 9 } else if n == 5 { 6 } else if n == 6 { 5 } else { 0 }
}

/// Whether `tag` fits in a row that holds `current`: with it, the row has
/// one more button, and every tag of the row, an icon of `icon_width`
/// bytes included, must be short enough for that many buttons.
pub fn can_insert_tag_in_column(current: &Vec<String>, tag: &str, icon_width: usize) -> (r: bool)
    ensures
        r == ((forall|i: int| 0 <= i < current@.len() ==> byte_len(#[trigger] current@[i]@) + icon_width <= max_tag_len(current@.len() + 1int))
            && byte_len(tag@) + icon_width <= max_tag_len(current@.len() + 1int)),
{
    let final_button_count: usize = if current.len() < usize::MAX { current.len() + 1 } else { usize::MAX };
    let max_string_len: usize = if final_button_count <= 1 { 9999 } else if final_button_count == 2 { 20 } else if final_button_count == 3 { 12 }
        else if final_button_count == 4 { 9 } else if final_button_count == 5 { 6 } else if final_button_count == 6 { 5 } else { 0 };
    let mut i: usize = 0;
    while i < current.len()
        invariant
            0 <= i <= current@.len(),
            max_string_len as int == max_tag_len(current@.len() + 1int),
            forall|j: int| 0 <= j < i ==> byte_len(#[trigger] current@[j]@) + icon_width <= max_tag_len(current@.len() + 1int),
        decreases current@.len() - i,
    {
        let len = current[i].as_str().as_bytes().len();
        proof {
            crate::errors::lemma_byte_len_utf8(current@[i as int]@);
        }
        if len > max_string_len || icon_width > max_string_len - len {
            return false;
        }
        i = i + 1;
    }
    let len = tag.as_bytes().len();
    proof {
        crate::errors::lemma_byte_len_utf8(tag@);
    }
    len <= max_string_len && icon_width <= max_string_len - len
}

} // verus!
