//! Laws of the button text format.
use vstd::prelude::*;
use crate::callback_data::{p_simple, p_word, p_change_set, p_user_info, p_order, p_category, p_lock, p_recommend, p_favorite, tag_operation_text, callback_text, parse_callback, p_sticker, p_merge, semicolon_tag, opt_tag_operation, kw_word, CallbackDataView, FavoriteAction, TagOperationView};
use crate::model::{Category, StickerOrder};
use crate::numbers::{dec, lemma_grammar_unsigned_dec};
use crate::chars::{has_prefix, in_class, kw_to, lemma_kw, lemma_word, lemma_word_sub, valid_word, word, CharClass};

verus! {

/// The actions whose text the grammar can read back: every sticker id is a
/// non-empty run of sticker-id characters, every tag and set name a non-empty
/// run of tag characters.
pub open spec fn callback_wf(d: CallbackDataView) -> bool {
    match d {
        CallbackDataView::RemoveBlacklistedTag(t) => valid_word(t, CharClass::Tag),
        CallbackDataView::RemoveContinuousTag(t) => valid_word(t, CharClass::Tag),
        CallbackDataView::RemoveAlias(t) => valid_word(t, CharClass::Tag),
        CallbackDataView::StickerSetPage(id) => valid_word(id, CharClass::StickerId),
        CallbackDataView::DownloadSticker(id) => valid_word(id, CharClass::StickerId),
        CallbackDataView::StickerExplorePage(id) => valid_word(id, CharClass::StickerId),
        CallbackDataView::ToggleExampleSticker(id) => valid_word(id, CharClass::StickerId),
        CallbackDataView::OwnerPage(id) => valid_word(id, CharClass::StickerId),
        CallbackDataView::Sticker(id, op) => valid_word(id, CharClass::StickerId) && match op {
            Some(TagOperationView::Tag(t)) => valid_word(t, CharClass::Tag),
            Some(TagOperationView::Untag(t)) => valid_word(t, CharClass::Tag),
            None => true,
        },
        CallbackDataView::FavoriteSticker(id, _) => valid_word(id, CharClass::StickerId),
        CallbackDataView::SetLock(id, _) => valid_word(id, CharClass::StickerId),
        CallbackDataView::ToggleRecommendSticker(id, _) => valid_word(id, CharClass::StickerId),
        CallbackDataView::ChangeSetStatus(name, _) => valid_word(name, CharClass::Tag),
        CallbackDataView::Merge(a, b, _) => valid_word(a, CharClass::StickerId) && valid_word(b, CharClass::StickerId),
        _ => true,
    }
}


#[verifier::spinoff_prover]
proof fn lemma_rt_start()
    ensures
        parse_callback(callback_text(CallbackDataView::Start)) == Some(CallbackDataView::Start),
{
    reveal_strlit("start");
    reveal_strlit("settings");
    reveal_strlit("features");
    reveal_strlit("exdia");
    reveal_strlit("pop");
    reveal_strlit("gstats");
    reveal_strlit("pstats");
    reveal_strlit("lsets");
    reveal_strlit("help");
    reveal_strlit("blacklist");
    reveal_strlit("info");
    reveal_strlit("noaction");
    reveal_strlit("removeuser");
    reveal_strlit("linkself");
    reveal_strlit("createtag");
    reveal_strlit("removechannel");
    reveal_strlit("removebl;");
    reveal_strlit("removec;");
    reveal_strlit("s;");
    reveal_strlit(";");
    reveal_strlit("t");
    reveal_strlit("u");
    reveal_strlit("chset;");
    reveal_strlit("ban");
    reveal_strlit("unban");
    reveal_strlit("userinfo;");
    reveal_strlit("order;");
    reveal_strlit("cat;");
    reveal_strlit("cat;none");
    reveal_strlit("none");
    reveal_strlit("ras;");
    reveal_strlit("lock;");
    reveal_strlit("lock");
    reveal_strlit("unlock");
    reveal_strlit("rec;");
    reveal_strlit("positive");
    reveal_strlit("negative");
    reveal_strlit("ssp;");
    reveal_strlit("dls;");
    reveal_strlit("sep;");
    reveal_strlit("tex;");
    reveal_strlit("fav;");
    reveal_strlit("add");
    reveal_strlit("remove");
    reveal_strlit("merge;");
    reveal_strlit("true");
    reveal_strlit("false");
    let s = callback_text(CallbackDataView::Start);
    assert(s[0] == 's');
    assert(s[1] == 't');
    assert(s[2] == 'a');
    assert(s[3] == 'r');
    assert(s[4] == 't');
    assert(s.subrange(0, s.len() as int) =~= "start"@);
    lemma_kw(s, 0, "start"@);
}

#[verifier::spinoff_prover]
proof fn lemma_rt_settings()
    ensures
        parse_callback(callback_text(CallbackDataView::Settings)) == Some(CallbackDataView::Settings),
{
    reveal_strlit("start");
    reveal_strlit("settings");
    reveal_strlit("features");
    reveal_strlit("exdia");
    reveal_strlit("pop");
    reveal_strlit("gstats");
    reveal_strlit("pstats");
    reveal_strlit("lsets");
    reveal_strlit("help");
    reveal_strlit("blacklist");
    reveal_strlit("info");
    reveal_strlit("noaction");
    reveal_strlit("removeuser");
    reveal_strlit("linkself");
    reveal_strlit("createtag");
    reveal_strlit("removechannel");
    reveal_strlit("removebl;");
    reveal_strlit("removec;");
    reveal_strlit("s;");
    reveal_strlit(";");
    reveal_strlit("t");
    reveal_strlit("u");
    reveal_strlit("chset;");
    reveal_strlit("ban");
    reveal_strlit("unban");
    reveal_strlit("userinfo;");
    reveal_strlit("order;");
    reveal_strlit("cat;");
    reveal_strlit("cat;none");
    reveal_strlit("none");
    reveal_strlit("ras;");
    reveal_strlit("lock;");
    reveal_strlit("lock");
    reveal_strlit("unlock");
    reveal_strlit("rec;");
    reveal_strlit("positive");
    reveal_strlit("negative");
    reveal_strlit("ssp;");
    reveal_strlit("dls;");
    reveal_strlit("sep;");
    reveal_strlit("tex;");
    reveal_strlit("fav;");
    reveal_strlit("add");
    reveal_strlit("remove");
    reveal_strlit("merge;");
    reveal_strlit("true");
    reveal_strlit("false");
    let s = callback_text(CallbackDataView::Settings);
    assert(s[0] == 's');
    assert(s[1] == 'e');
    assert(s[2] == 't');
    assert(s[3] == 't');
    assert(s[4] == 'i');
    assert(s[5] == 'n');
    assert(s[6] == 'g');
    assert(s[7] == 's');
    assert(s.subrange(0, s.len() as int) =~= "settings"@);
    lemma_kw(s, 0, "settings"@);
}

#[verifier::spinoff_prover]
proof fn lemma_rt_featureoverview()
    ensures
        parse_callback(callback_text(CallbackDataView::FeatureOverview)) == Some(CallbackDataView::FeatureOverview),
{
    reveal_strlit("start");
    reveal_strlit("settings");
    reveal_strlit("features");
    reveal_strlit("exdia");
    reveal_strlit("pop");
    reveal_strlit("gstats");
    reveal_strlit("pstats");
    reveal_strlit("lsets");
    reveal_strlit("help");
    reveal_strlit("blacklist");
    reveal_strlit("info");
    reveal_strlit("noaction");
    reveal_strlit("removeuser");
    reveal_strlit("linkself");
    reveal_strlit("createtag");
    reveal_strlit("removechannel");
    reveal_strlit("removebl;");
    reveal_strlit("removec;");
    reveal_strlit("s;");
    reveal_strlit(";");
    reveal_strlit("t");
    reveal_strlit("u");
    reveal_strlit("chset;");
    reveal_strlit("ban");
    reveal_strlit("unban");
    reveal_strlit("userinfo;");
    reveal_strlit("order;");
    reveal_strlit("cat;");
    reveal_strlit("cat;none");
    reveal_strlit("none");
    reveal_strlit("ras;");
    reveal_strlit("lock;");
    reveal_strlit("lock");
    reveal_strlit("unlock");
    reveal_strlit("rec;");
    reveal_strlit("positive");
    reveal_strlit("negative");
    reveal_strlit("ssp;");
    reveal_strlit("dls;");
    reveal_strlit("sep;");
    reveal_strlit("tex;");
    reveal_strlit("fav;");
    reveal_strlit("add");
    reveal_strlit("remove");
    reveal_strlit("merge;");
    reveal_strlit("true");
    reveal_strlit("false");
    let s = callback_text(CallbackDataView::FeatureOverview);
    assert(s[0] == 'f');
    assert(s[1] == 'e');
    assert(s[2] == 'a');
    assert(s[3] == 't');
    assert(s[4] == 'u');
    assert(s[5] == 'r');
    assert(s[6] == 'e');
    assert(s[7] == 's');
    assert(s.subrange(0, s.len() as int) =~= "features"@);
    lemma_kw(s, 0, "features"@);
}

#[verifier::spinoff_prover]
proof fn lemma_rt_exitdialog()
    ensures
        parse_callback(callback_text(CallbackDataView::ExitDialog)) == Some(CallbackDataView::ExitDialog),
{
    reveal_strlit("start");
    reveal_strlit("settings");
    reveal_strlit("features");
    reveal_strlit("exdia");
    reveal_strlit("pop");
    reveal_strlit("gstats");
    reveal_strlit("pstats");
    reveal_strlit("lsets");
    reveal_strlit("help");
    reveal_strlit("blacklist");
    reveal_strlit("info");
    reveal_strlit("noaction");
    reveal_strlit("removeuser");
    reveal_strlit("linkself");
    reveal_strlit("createtag");
    reveal_strlit("removechannel");
    reveal_strlit("removebl;");
    reveal_strlit("removec;");
    reveal_strlit("s;");
    reveal_strlit(";");
    reveal_strlit("t");
    reveal_strlit("u");
    reveal_strlit("chset;");
    reveal_strlit("ban");
    reveal_strlit("unban");
    reveal_strlit("userinfo;");
    reveal_strlit("order;");
    reveal_strlit("cat;");
    reveal_strlit("cat;none");
    reveal_strlit("none");
    reveal_strlit("ras;");
    reveal_strlit("lock;");
    reveal_strlit("lock");
    reveal_strlit("unlock");
    reveal_strlit("rec;");
    reveal_strlit("positive");
    reveal_strlit("negative");
    reveal_strlit("ssp;");
    reveal_strlit("dls;");
    reveal_strlit("sep;");
    reveal_strlit("tex;");
    reveal_strlit("fav;");
    reveal_strlit("add");
    reveal_strlit("remove");
    reveal_strlit("merge;");
    reveal_strlit("true");
    reveal_strlit("false");
    let s = callback_text(CallbackDataView::ExitDialog);
    assert(s[0] == 'e');
    assert(s[1] == 'x');
    assert(s[2] == 'd');
    assert(s[3] == 'i');
    assert(s[4] == 'a');
    assert(s.subrange(0, s.len() as int) =~= "exdia"@);
    lemma_kw(s, 0, "exdia"@);
}

#[verifier::spinoff_prover]
proof fn lemma_rt_populartags()
    ensures
        parse_callback(callback_text(CallbackDataView::PopularTags)) == Some(CallbackDataView::PopularTags),
{
    reveal_strlit("start");
    reveal_strlit("settings");
    reveal_strlit("features");
    reveal_strlit("exdia");
    reveal_strlit("pop");
    reveal_strlit("gstats");
    reveal_strlit("pstats");
    reveal_strlit("lsets");
    reveal_strlit("help");
    reveal_strlit("blacklist");
    reveal_strlit("info");
    reveal_strlit("noaction");
    reveal_strlit("removeuser");
    reveal_strlit("linkself");
    reveal_strlit("createtag");
    reveal_strlit("removechannel");
    reveal_strlit("removebl;");
    reveal_strlit("removec;");
    reveal_strlit("s;");
    reveal_strlit(";");
    reveal_strlit("t");
    reveal_strlit("u");
    reveal_strlit("chset;");
    reveal_strlit("ban");
    reveal_strlit("unban");
    reveal_strlit("userinfo;");
    reveal_strlit("order;");
    reveal_strlit("cat;");
    reveal_strlit("cat;none");
    reveal_strlit("none");
    reveal_strlit("ras;");
    reveal_strlit("lock;");
    reveal_strlit("lock");
    reveal_strlit("unlock");
    reveal_strlit("rec;");
    reveal_strlit("positive");
    reveal_strlit("negative");
    reveal_strlit("ssp;");
    reveal_strlit("dls;");
    reveal_strlit("sep;");
    reveal_strlit("tex;");
    reveal_strlit("fav;");
    reveal_strlit("add");
    reveal_strlit("remove");
    reveal_strlit("merge;");
    reveal_strlit("true");
    reveal_strlit("false");
    let s = callback_text(CallbackDataView::PopularTags);
    assert(s[0] == 'p');
    assert(s[1] == 'o');
    assert(s[2] == 'p');
    assert(s.subrange(0, s.len() as int) =~= "pop"@);
    lemma_kw(s, 0, "pop"@);
}

#[verifier::spinoff_prover]
proof fn lemma_rt_generalstats()
    ensures
        parse_callback(callback_text(CallbackDataView::GeneralStats)) == Some(CallbackDataView::GeneralStats),
{
    reveal_strlit("start");
    reveal_strlit("settings");
    reveal_strlit("features");
    reveal_strlit("exdia");
    reveal_strlit("pop");
    reveal_strlit("gstats");
    reveal_strlit("pstats");
    reveal_strlit("lsets");
    reveal_strlit("help");
    reveal_strlit("blacklist");
    reveal_strlit("info");
    reveal_strlit("noaction");
    reveal_strlit("removeuser");
    reveal_strlit("linkself");
    reveal_strlit("createtag");
    reveal_strlit("removechannel");
    reveal_strlit("removebl;");
    reveal_strlit("removec;");
    reveal_strlit("s;");
    reveal_strlit(";");
    reveal_strlit("t");
    reveal_strlit("u");
    reveal_strlit("chset;");
    reveal_strlit("ban");
    reveal_strlit("unban");
    reveal_strlit("userinfo;");
    reveal_strlit("order;");
    reveal_strlit("cat;");
    reveal_strlit("cat;none");
    reveal_strlit("none");
    reveal_strlit("ras;");
    reveal_strlit("lock;");
    reveal_strlit("lock");
    reveal_strlit("unlock");
    reveal_strlit("rec;");
    reveal_strlit("positive");
    reveal_strlit("negative");
    reveal_strlit("ssp;");
    reveal_strlit("dls;");
    reveal_strlit("sep;");
    reveal_strlit("tex;");
    reveal_strlit("fav;");
    reveal_strlit("add");
    reveal_strlit("remove");
    reveal_strlit("merge;");
    reveal_strlit("true");
    reveal_strlit("false");
    let s = callback_text(CallbackDataView::GeneralStats);
    assert(s[0] == 'g');
    assert(s[1] == 's');
    assert(s[2] == 't');
    assert(s[3] == 'a');
    assert(s[4] == 't');
    assert(s[5] == 's');
    assert(s.subrange(0, s.len() as int) =~= "gstats"@);
    lemma_kw(s, 0, "gstats"@);
}

#[verifier::spinoff_prover]
proof fn lemma_rt_personalstats()
    ensures
        parse_callback(callback_text(CallbackDataView::PersonalStats)) == Some(CallbackDataView::PersonalStats),
{
    reveal_strlit("start");
    reveal_strlit("settings");
    reveal_strlit("features");
    reveal_strlit("exdia");
    reveal_strlit("pop");
    reveal_strlit("gstats");
    reveal_strlit("pstats");
    reveal_strlit("lsets");
    reveal_strlit("help");
    reveal_strlit("blacklist");
    reveal_strlit("info");
    reveal_strlit("noaction");
    reveal_strlit("removeuser");
    reveal_strlit("linkself");
    reveal_strlit("createtag");
    reveal_strlit("removechannel");
    reveal_strlit("removebl;");
    reveal_strlit("removec;");
    reveal_strlit("s;");
    reveal_strlit(";");
    reveal_strlit("t");
    reveal_strlit("u");
    reveal_strlit("chset;");
    reveal_strlit("ban");
    reveal_strlit("unban");
    reveal_strlit("userinfo;");
    reveal_strlit("order;");
    reveal_strlit("cat;");
    reveal_strlit("cat;none");
    reveal_strlit("none");
    reveal_strlit("ras;");
    reveal_strlit("lock;");
    reveal_strlit("lock");
    reveal_strlit("unlock");
    reveal_strlit("rec;");
    reveal_strlit("positive");
    reveal_strlit("negative");
    reveal_strlit("ssp;");
    reveal_strlit("dls;");
    reveal_strlit("sep;");
    reveal_strlit("tex;");
    reveal_strlit("fav;");
    reveal_strlit("add");
    reveal_strlit("remove");
    reveal_strlit("merge;");
    reveal_strlit("true");
    reveal_strlit("false");
    let s = callback_text(CallbackDataView::PersonalStats);
    assert(s[0] == 'p');
    assert(s[1] == 's');
    assert(s[2] == 't');
    assert(s[3] == 'a');
    assert(s[4] == 't');
    assert(s[5] == 's');
    assert(s.subrange(0, s.len() as int) =~= "pstats"@);
    lemma_kw(s, 0, "pstats"@);
}

#[verifier::spinoff_prover]
proof fn lemma_rt_latestsets()
    ensures
        parse_callback(callback_text(CallbackDataView::LatestSets)) == Some(CallbackDataView::LatestSets),
{
    reveal_strlit("start");
    reveal_strlit("settings");
    reveal_strlit("features");
    reveal_strlit("exdia");
    reveal_strlit("pop");
    reveal_strlit("gstats");
    reveal_strlit("pstats");
    reveal_strlit("lsets");
    reveal_strlit("help");
    reveal_strlit("blacklist");
    reveal_strlit("info");
    reveal_strlit("noaction");
    reveal_strlit("removeuser");
    reveal_strlit("linkself");
    reveal_strlit("createtag");
    reveal_strlit("removechannel");
    reveal_strlit("removebl;");
    reveal_strlit("removec;");
    reveal_strlit("s;");
    reveal_strlit(";");
    reveal_strlit("t");
    reveal_strlit("u");
    reveal_strlit("chset;");
    reveal_strlit("ban");
    reveal_strlit("unban");
    reveal_strlit("userinfo;");
    reveal_strlit("order;");
    reveal_strlit("cat;");
    reveal_strlit("cat;none");
    reveal_strlit("none");
    reveal_strlit("ras;");
    reveal_strlit("lock;");
    reveal_strlit("lock");
    reveal_strlit("unlock");
    reveal_strlit("rec;");
    reveal_strlit("positive");
    reveal_strlit("negative");
    reveal_strlit("ssp;");
    reveal_strlit("dls;");
    reveal_strlit("sep;");
    reveal_strlit("tex;");
    reveal_strlit("fav;");
    reveal_strlit("add");
    reveal_strlit("remove");
    reveal_strlit("merge;");
    reveal_strlit("true");
    reveal_strlit("false");
    let s = callback_text(CallbackDataView::LatestSets);
    assert(s[0] == 'l');
    assert(s[1] == 's');
    assert(s[2] == 'e');
    assert(s[3] == 't');
    assert(s[4] == 's');
    assert(s.subrange(0, s.len() as int) =~= "lsets"@);
    lemma_kw(s, 0, "lsets"@);
}

#[verifier::spinoff_prover]
proof fn lemma_rt_help()
    ensures
        parse_callback(callback_text(CallbackDataView::Help)) == Some(CallbackDataView::Help),
{
    reveal_strlit("start");
    reveal_strlit("settings");
    reveal_strlit("features");
    reveal_strlit("exdia");
    reveal_strlit("pop");
    reveal_strlit("gstats");
    reveal_strlit("pstats");
    reveal_strlit("lsets");
    reveal_strlit("help");
    reveal_strlit("blacklist");
    reveal_strlit("info");
    reveal_strlit("noaction");
    reveal_strlit("removeuser");
    reveal_strlit("linkself");
    reveal_strlit("createtag");
    reveal_strlit("removechannel");
    reveal_strlit("removebl;");
    reveal_strlit("removec;");
    reveal_strlit("s;");
    reveal_strlit(";");
    reveal_strlit("t");
    reveal_strlit("u");
    reveal_strlit("chset;");
    reveal_strlit("ban");
    reveal_strlit("unban");
    reveal_strlit("userinfo;");
    reveal_strlit("order;");
    reveal_strlit("cat;");
    reveal_strlit("cat;none");
    reveal_strlit("none");
    reveal_strlit("ras;");
    reveal_strlit("lock;");
    reveal_strlit("lock");
    reveal_strlit("unlock");
    reveal_strlit("rec;");
    reveal_strlit("positive");
    reveal_strlit("negative");
    reveal_strlit("ssp;");
    reveal_strlit("dls;");
    reveal_strlit("sep;");
    reveal_strlit("tex;");
    reveal_strlit("fav;");
    reveal_strlit("add");
    reveal_strlit("remove");
    reveal_strlit("merge;");
    reveal_strlit("true");
    reveal_strlit("false");
    let s = callback_text(CallbackDataView::Help);
    assert(s[0] == 'h');
    assert(s[1] == 'e');
    assert(s[2] == 'l');
    assert(s[3] == 'p');
    assert(s.subrange(0, s.len() as int) =~= "help"@);
    lemma_kw(s, 0, "help"@);
}

#[verifier::spinoff_prover]
proof fn lemma_rt_blacklist()
    ensures
        parse_callback(callback_text(CallbackDataView::Blacklist)) == Some(CallbackDataView::Blacklist),
{
    reveal_strlit("start");
    reveal_strlit("settings");
    reveal_strlit("features");
    reveal_strlit("exdia");
    reveal_strlit("pop");
    reveal_strlit("gstats");
    reveal_strlit("pstats");
    reveal_strlit("lsets");
    reveal_strlit("help");
    reveal_strlit("blacklist");
    reveal_strlit("info");
    reveal_strlit("noaction");
    reveal_strlit("removeuser");
    reveal_strlit("linkself");
    reveal_strlit("createtag");
    reveal_strlit("removechannel");
    reveal_strlit("removebl;");
    reveal_strlit("removec;");
    reveal_strlit("s;");
    reveal_strlit(";");
    reveal_strlit("t");
    reveal_strlit("u");
    reveal_strlit("chset;");
    reveal_strlit("ban");
    reveal_strlit("unban");
    reveal_strlit("userinfo;");
    reveal_strlit("order;");
    reveal_strlit("cat;");
    reveal_strlit("cat;none");
    reveal_strlit("none");
    reveal_strlit("ras;");
    reveal_strlit("lock;");
    reveal_strlit("lock");
    reveal_strlit("unlock");
    reveal_strlit("rec;");
    reveal_strlit("positive");
    reveal_strlit("negative");
    reveal_strlit("ssp;");
    reveal_strlit("dls;");
    reveal_strlit("sep;");
    reveal_strlit("tex;");
    reveal_strlit("fav;");
    reveal_strlit("add");
    reveal_strlit("remove");
    reveal_strlit("merge;");
    reveal_strlit("true");
    reveal_strlit("false");
    let s = callback_text(CallbackDataView::Blacklist);
    assert(s[0] == 'b');
    assert(s[1] == 'l');
    assert(s[2] == 'a');
    assert(s[3] == 'c');
    assert(s[4] == 'k');
    assert(s[5] == 'l');
    assert(s[6] == 'i');
    assert(s[7] == 's');
    assert(s.subrange(0, s.len() as int) =~= "blacklist"@);
    lemma_kw(s, 0, "blacklist"@);
}

#[verifier::spinoff_prover]
proof fn lemma_rt_info()
    ensures
        parse_callback(callback_text(CallbackDataView::Info)) == Some(CallbackDataView::Info),
{
    reveal_strlit("start");
    reveal_strlit("settings");
    reveal_strlit("features");
    reveal_strlit("exdia");
    reveal_strlit("pop");
    reveal_strlit("gstats");
    reveal_strlit("pstats");
    reveal_strlit("lsets");
    reveal_strlit("help");
    reveal_strlit("blacklist");
    reveal_strlit("info");
    reveal_strlit("noaction");
    reveal_strlit("removeuser");
    reveal_strlit("linkself");
    reveal_strlit("createtag");
    reveal_strlit("removechannel");
    reveal_strlit("removebl;");
    reveal_strlit("removec;");
    reveal_strlit("s;");
    reveal_strlit(";");
    reveal_strlit("t");
    reveal_strlit("u");
    reveal_strlit("chset;");
    reveal_strlit("ban");
    reveal_strlit("unban");
    reveal_strlit("userinfo;");
    reveal_strlit("order;");
    reveal_strlit("cat;");
    reveal_strlit("cat;none");
    reveal_strlit("none");
    reveal_strlit("ras;");
    reveal_strlit("lock;");
    reveal_strlit("lock");
    reveal_strlit("unlock");
    reveal_strlit("rec;");
    reveal_strlit("positive");
    reveal_strlit("negative");
    reveal_strlit("ssp;");
    reveal_strlit("dls;");
    reveal_strlit("sep;");
    reveal_strlit("tex;");
    reveal_strlit("fav;");
    reveal_strlit("add");
    reveal_strlit("remove");
    reveal_strlit("merge;");
    reveal_strlit("true");
    reveal_strlit("false");
    let s = callback_text(CallbackDataView::Info);
    assert(s[0] == 'i');
    assert(s[1] == 'n');
    assert(s[2] == 'f');
    assert(s[3] == 'o');
    assert(s.subrange(0, s.len() as int) =~= "info"@);
    lemma_kw(s, 0, "info"@);
}

#[verifier::spinoff_prover]
proof fn lemma_rt_noaction()
    ensures
        parse_callback(callback_text(CallbackDataView::NoAction)) == Some(CallbackDataView::NoAction),
{
    reveal_strlit("start");
    reveal_strlit("settings");
    reveal_strlit("features");
    reveal_strlit("exdia");
    reveal_strlit("pop");
    reveal_strlit("gstats");
    reveal_strlit("pstats");
    reveal_strlit("lsets");
    reveal_strlit("help");
    reveal_strlit("blacklist");
    reveal_strlit("info");
    reveal_strlit("noaction");
    reveal_strlit("removeuser");
    reveal_strlit("linkself");
    reveal_strlit("createtag");
    reveal_strlit("removechannel");
    reveal_strlit("removebl;");
    reveal_strlit("removec;");
    reveal_strlit("s;");
    reveal_strlit(";");
    reveal_strlit("t");
    reveal_strlit("u");
    reveal_strlit("chset;");
    reveal_strlit("ban");
    reveal_strlit("unban");
    reveal_strlit("userinfo;");
    reveal_strlit("order;");
    reveal_strlit("cat;");
    reveal_strlit("cat;none");
    reveal_strlit("none");
    reveal_strlit("ras;");
    reveal_strlit("lock;");
    reveal_strlit("lock");
    reveal_strlit("unlock");
    reveal_strlit("rec;");
    reveal_strlit("positive");
    reveal_strlit("negative");
    reveal_strlit("ssp;");
    reveal_strlit("dls;");
    reveal_strlit("sep;");
    reveal_strlit("tex;");
    reveal_strlit("fav;");
    reveal_strlit("add");
    reveal_strlit("remove");
    reveal_strlit("merge;");
    reveal_strlit("true");
    reveal_strlit("false");
    let s = callback_text(CallbackDataView::NoAction);
    assert(s[0] == 'n');
    assert(s[1] == 'o');
    assert(s[2] == 'a');
    assert(s[3] == 'c');
    assert(s[4] == 't');
    assert(s[5] == 'i');
    assert(s[6] == 'o');
    assert(s[7] == 'n');
    assert(s.subrange(0, s.len() as int) =~= "noaction"@);
    lemma_kw(s, 0, "noaction"@);
}

#[verifier::spinoff_prover]
proof fn lemma_rt_removelinkeduser()
    ensures
        parse_callback(callback_text(CallbackDataView::RemoveLinkedUser)) == Some(CallbackDataView::RemoveLinkedUser),
{
    reveal_strlit("start");
    reveal_strlit("settings");
    reveal_strlit("features");
    reveal_strlit("exdia");
    reveal_strlit("pop");
    reveal_strlit("gstats");
    reveal_strlit("pstats");
    reveal_strlit("lsets");
    reveal_strlit("help");
    reveal_strlit("blacklist");
    reveal_strlit("info");
    reveal_strlit("noaction");
    reveal_strlit("removeuser");
    reveal_strlit("linkself");
    reveal_strlit("createtag");
    reveal_strlit("removechannel");
    reveal_strlit("removebl;");
    reveal_strlit("removec;");
    reveal_strlit("s;");
    reveal_strlit(";");
    reveal_strlit("t");
    reveal_strlit("u");
    reveal_strlit("chset;");
    reveal_strlit("ban");
    reveal_strlit("unban");
    reveal_strlit("userinfo;");
    reveal_strlit("order;");
    reveal_strlit("cat;");
    reveal_strlit("cat;none");
    reveal_strlit("none");
    reveal_strlit("ras;");
    reveal_strlit("lock;");
    reveal_strlit("lock");
    reveal_strlit("unlock");
    reveal_strlit("rec;");
    reveal_strlit("positive");
    reveal_strlit("negative");
    reveal_strlit("ssp;");
    reveal_strlit("dls;");
    reveal_strlit("sep;");
    reveal_strlit("tex;");
    reveal_strlit("fav;");
    reveal_strlit("add");
    reveal_strlit("remove");
    reveal_strlit("merge;");
    reveal_strlit("true");
    reveal_strlit("false");
    let s = callback_text(CallbackDataView::RemoveLinkedUser);
    assert(s[0] == 'r');
    assert(s[1] == 'e');
    assert(s[2] == 'm');
    assert(s[3] == 'o');
    assert(s[4] == 'v');
    assert(s[5] == 'e');
    assert(s[6] == 'u');
    assert(s[7] == 's');
    assert(s.subrange(0, s.len() as int) =~= "removeuser"@);
    lemma_kw(s, 0, "removeuser"@);
}

#[verifier::spinoff_prover]
proof fn lemma_rt_linkself()
    ensures
        parse_callback(callback_text(CallbackDataView::LinkSelf)) == Some(CallbackDataView::LinkSelf),
{
    reveal_strlit("start");
    reveal_strlit("settings");
    reveal_strlit("features");
    reveal_strlit("exdia");
    reveal_strlit("pop");
    reveal_strlit("gstats");
    reveal_strlit("pstats");
    reveal_strlit("lsets");
    reveal_strlit("help");
    reveal_strlit("blacklist");
    reveal_strlit("info");
    reveal_strlit("noaction");
    reveal_strlit("removeuser");
    reveal_strlit("linkself");
    reveal_strlit("createtag");
    reveal_strlit("removechannel");
    reveal_strlit("removebl;");
    reveal_strlit("removec;");
    reveal_strlit("s;");
    reveal_strlit(";");
    reveal_strlit("t");
    reveal_strlit("u");
    reveal_strlit("chset;");
    reveal_strlit("ban");
    reveal_strlit("unban");
    reveal_strlit("userinfo;");
    reveal_strlit("order;");
    reveal_strlit("cat;");
    reveal_strlit("cat;none");
    reveal_strlit("none");
    reveal_strlit("ras;");
    reveal_strlit("lock;");
    reveal_strlit("lock");
    reveal_strlit("unlock");
    reveal_strlit("rec;");
    reveal_strlit("positive");
    reveal_strlit("negative");
    reveal_strlit("ssp;");
    reveal_strlit("dls;");
    reveal_strlit("sep;");
    reveal_strlit("tex;");
    reveal_strlit("fav;");
    reveal_strlit("add");
    reveal_strlit("remove");
    reveal_strlit("merge;");
    reveal_strlit("true");
    reveal_strlit("false");
    let s = callback_text(CallbackDataView::LinkSelf);
    assert(s[0] == 'l');
    assert(s[1] == 'i');
    assert(s[2] == 'n');
    assert(s[3] == 'k');
    assert(s[4] == 's');
    assert(s[5] == 'e');
    assert(s[6] == 'l');
    assert(s[7] == 'f');
    assert(s.subrange(0, s.len() as int) =~= "linkself"@);
    lemma_kw(s, 0, "linkself"@);
}

#[verifier::spinoff_prover]
proof fn lemma_rt_createtag()
    ensures
        parse_callback(callback_text(CallbackDataView::CreateTag)) == Some(CallbackDataView::CreateTag),
{
    reveal_strlit("start");
    reveal_strlit("settings");
    reveal_strlit("features");
    reveal_strlit("exdia");
    reveal_strlit("pop");
    reveal_strlit("gstats");
    reveal_strlit("pstats");
    reveal_strlit("lsets");
    reveal_strlit("help");
    reveal_strlit("blacklist");
    reveal_strlit("info");
    reveal_strlit("noaction");
    reveal_strlit("removeuser");
    reveal_strlit("linkself");
    reveal_strlit("createtag");
    reveal_strlit("removechannel");
    reveal_strlit("removebl;");
    reveal_strlit("removec;");
    reveal_strlit("s;");
    reveal_strlit(";");
    reveal_strlit("t");
    reveal_strlit("u");
    reveal_strlit("chset;");
    reveal_strlit("ban");
    reveal_strlit("unban");
    reveal_strlit("userinfo;");
    reveal_strlit("order;");
    reveal_strlit("cat;");
    reveal_strlit("cat;none");
    reveal_strlit("none");
    reveal_strlit("ras;");
    reveal_strlit("lock;");
    reveal_strlit("lock");
    reveal_strlit("unlock");
    reveal_strlit("rec;");
    reveal_strlit("positive");
    reveal_strlit("negative");
    reveal_strlit("ssp;");
    reveal_strlit("dls;");
    reveal_strlit("sep;");
    reveal_strlit("tex;");
    reveal_strlit("fav;");
    reveal_strlit("add");
    reveal_strlit("remove");
    reveal_strlit("merge;");
    reveal_strlit("true");
    reveal_strlit("false");
    let s = callback_text(CallbackDataView::CreateTag);
    assert(s[0] == 'c');
    assert(s[1] == 'r');
    assert(s[2] == 'e');
    assert(s[3] == 'a');
    assert(s[4] == 't');
    assert(s[5] == 'e');
    assert(s[6] == 't');
    assert(s[7] == 'a');
    assert(s.subrange(0, s.len() as int) =~= "createtag"@);
    lemma_kw(s, 0, "createtag"@);
}

#[verifier::spinoff_prover]
proof fn lemma_rt_removelinkedchannel()
    ensures
        parse_callback(callback_text(CallbackDataView::RemoveLinkedChannel)) == Some(CallbackDataView::RemoveLinkedChannel),
{
    reveal_strlit("start");
    reveal_strlit("settings");
    reveal_strlit("features");
    reveal_strlit("exdia");
    reveal_strlit("pop");
    reveal_strlit("gstats");
    reveal_strlit("pstats");
    reveal_strlit("lsets");
    reveal_strlit("help");
    reveal_strlit("blacklist");
    reveal_strlit("info");
    reveal_strlit("noaction");
    reveal_strlit("removeuser");
    reveal_strlit("linkself");
    reveal_strlit("createtag");
    reveal_strlit("removechannel");
    reveal_strlit("removebl;");
    reveal_strlit("removec;");
    reveal_strlit("s;");
    reveal_strlit(";");
    reveal_strlit("t");
    reveal_strlit("u");
    reveal_strlit("chset;");
    reveal_strlit("ban");
    reveal_strlit("unban");
    reveal_strlit("userinfo;");
    reveal_strlit("order;");
    reveal_strlit("cat;");
    reveal_strlit("cat;none");
    reveal_strlit("none");
    reveal_strlit("ras;");
    reveal_strlit("lock;");
    reveal_strlit("lock");
    reveal_strlit("unlock");
    reveal_strlit("rec;");
    reveal_strlit("positive");
    reveal_strlit("negative");
    reveal_strlit("ssp;");
    reveal_strlit("dls;");
    reveal_strlit("sep;");
    reveal_strlit("tex;");
    reveal_strlit("fav;");
    reveal_strlit("add");
    reveal_strlit("remove");
    reveal_strlit("merge;");
    reveal_strlit("true");
    reveal_strlit("false");
    let s = callback_text(CallbackDataView::RemoveLinkedChannel);
    assert(s[0] == 'r');
    assert(s[1] == 'e');
    assert(s[2] == 'm');
    assert(s[3] == 'o');
    assert(s[4] == 'v');
    assert(s[5] == 'e');
    assert(s[6] == 'c');
    assert(s[7] == 'h');
    assert(s.subrange(0, s.len() as int) =~= "removechannel"@);
    lemma_kw(s, 0, "removechannel"@);
}

#[verifier::spinoff_prover]
proof fn lemma_rt_removeblacklistedtag(w: Seq<char>)
    requires
        valid_word(w, CharClass::Tag),
    ensures
        parse_callback(callback_text(CallbackDataView::RemoveBlacklistedTag(w))) == Some(CallbackDataView::RemoveBlacklistedTag(w)),
{
    reveal_strlit("start");
    reveal_strlit("settings");
    reveal_strlit("features");
    reveal_strlit("exdia");
    reveal_strlit("pop");
    reveal_strlit("gstats");
    reveal_strlit("pstats");
    reveal_strlit("lsets");
    reveal_strlit("help");
    reveal_strlit("blacklist");
    reveal_strlit("info");
    reveal_strlit("noaction");
    reveal_strlit("removeuser");
    reveal_strlit("linkself");
    reveal_strlit("createtag");
    reveal_strlit("removechannel");
    reveal_strlit("removebl;");
    reveal_strlit("removec;");
    reveal_strlit("s;");
    reveal_strlit(";");
    reveal_strlit("t");
    reveal_strlit("u");
    reveal_strlit("chset;");
    reveal_strlit("ban");
    reveal_strlit("unban");
    reveal_strlit("userinfo;");
    reveal_strlit("order;");
    reveal_strlit("cat;");
    reveal_strlit("cat;none");
    reveal_strlit("none");
    reveal_strlit("ras;");
    reveal_strlit("lock;");
    reveal_strlit("lock");
    reveal_strlit("unlock");
    reveal_strlit("rec;");
    reveal_strlit("positive");
    reveal_strlit("negative");
    reveal_strlit("ssp;");
    reveal_strlit("dls;");
    reveal_strlit("sep;");
    reveal_strlit("tex;");
    reveal_strlit("fav;");
    reveal_strlit("add");
    reveal_strlit("remove");
    reveal_strlit("merge;");
    reveal_strlit("true");
    reveal_strlit("false");
    let s = callback_text(CallbackDataView::RemoveBlacklistedTag(w));
    assert(s[0] == 'r');
    assert(s[1] == 'e');
    assert(s[2] == 'm');
    assert(s[3] == 'o');
    assert(s[4] == 'v');
    assert(s[5] == 'e');
    assert(s[6] == 'b');
    assert(s[7] == 'l');
    assert(s[8] == ';');
    assert(s.subrange(0, 9) =~= "removebl;"@);
    lemma_kw(s, 0, "removebl;"@);
    assert(s.subrange(9, 9 + w.len() as int) =~= w);
    lemma_word_sub(s, 9, w, CharClass::Tag);
}

#[verifier::spinoff_prover]
proof fn lemma_rt_removecontinuoustag(w: Seq<char>)
    requires
        valid_word(w, CharClass::Tag),
    ensures
        parse_callback(callback_text(CallbackDataView::RemoveContinuousTag(w))) == Some(CallbackDataView::RemoveContinuousTag(w)),
{
    reveal_strlit("start");
    reveal_strlit("settings");
    reveal_strlit("features");
    reveal_strlit("exdia");
    reveal_strlit("pop");
    reveal_strlit("gstats");
    reveal_strlit("pstats");
    reveal_strlit("lsets");
    reveal_strlit("help");
    reveal_strlit("blacklist");
    reveal_strlit("info");
    reveal_strlit("noaction");
    reveal_strlit("removeuser");
    reveal_strlit("linkself");
    reveal_strlit("createtag");
    reveal_strlit("removechannel");
    reveal_strlit("removebl;");
    reveal_strlit("removec;");
    reveal_strlit("s;");
    reveal_strlit(";");
    reveal_strlit("t");
    reveal_strlit("u");
    reveal_strlit("chset;");
    reveal_strlit("ban");
    reveal_strlit("unban");
    reveal_strlit("userinfo;");
    reveal_strlit("order;");
    reveal_strlit("cat;");
    reveal_strlit("cat;none");
    reveal_strlit("none");
    reveal_strlit("ras;");
    reveal_strlit("lock;");
    reveal_strlit("lock");
    reveal_strlit("unlock");
    reveal_strlit("rec;");
    reveal_strlit("positive");
    reveal_strlit("negative");
    reveal_strlit("ssp;");
    reveal_strlit("dls;");
    reveal_strlit("sep;");
    reveal_strlit("tex;");
    reveal_strlit("fav;");
    reveal_strlit("add");
    reveal_strlit("remove");
    reveal_strlit("merge;");
    reveal_strlit("true");
    reveal_strlit("false");
    let s = callback_text(CallbackDataView::RemoveContinuousTag(w));
    assert(s[0] == 'r');
    assert(s[1] == 'e');
    assert(s[2] == 'm');
    assert(s[3] == 'o');
    assert(s[4] == 'v');
    assert(s[5] == 'e');
    assert(s[6] == 'c');
    assert(s[7] == ';');
    assert(s.subrange(0, 8) =~= "removec;"@);
    lemma_kw(s, 0, "removec;"@);
    assert(s.subrange(8, 8 + w.len() as int) =~= w);
    lemma_word_sub(s, 8, w, CharClass::Tag);
}

#[verifier::spinoff_prover]
proof fn lemma_rt_removealias(w: Seq<char>)
    requires
        valid_word(w, CharClass::Tag),
    ensures
        parse_callback(callback_text(CallbackDataView::RemoveAlias(w))) == Some(CallbackDataView::RemoveAlias(w)),
{
    reveal_strlit("start");
    reveal_strlit("settings");
    reveal_strlit("features");
    reveal_strlit("exdia");
    reveal_strlit("pop");
    reveal_strlit("gstats");
    reveal_strlit("pstats");
    reveal_strlit("lsets");
    reveal_strlit("help");
    reveal_strlit("blacklist");
    reveal_strlit("info");
    reveal_strlit("noaction");
    reveal_strlit("removeuser");
    reveal_strlit("linkself");
    reveal_strlit("createtag");
    reveal_strlit("removechannel");
    reveal_strlit("removebl;");
    reveal_strlit("removec;");
    reveal_strlit("s;");
    reveal_strlit(";");
    reveal_strlit("t");
    reveal_strlit("u");
    reveal_strlit("chset;");
    reveal_strlit("ban");
    reveal_strlit("unban");
    reveal_strlit("userinfo;");
    reveal_strlit("order;");
    reveal_strlit("cat;");
    reveal_strlit("cat;none");
    reveal_strlit("none");
    reveal_strlit("ras;");
    reveal_strlit("lock;");
    reveal_strlit("lock");
    reveal_strlit("unlock");
    reveal_strlit("rec;");
    reveal_strlit("positive");
    reveal_strlit("negative");
    reveal_strlit("ssp;");
    reveal_strlit("dls;");
    reveal_strlit("sep;");
    reveal_strlit("tex;");
    reveal_strlit("fav;");
    reveal_strlit("add");
    reveal_strlit("remove");
    reveal_strlit("merge;");
    reveal_strlit("true");
    reveal_strlit("false");
    let s = callback_text(CallbackDataView::RemoveAlias(w));
    assert(s[0] == 'r');
    assert(s[1] == 'a');
    assert(s[2] == 's');
    assert(s[3] == ';');
    assert(s.subrange(0, 4) =~= "ras;"@);
    lemma_kw(s, 0, "ras;"@);
    assert(s.subrange(4, 4 + w.len() as int) =~= w);
    lemma_word_sub(s, 4, w, CharClass::Tag);
}

#[verifier::spinoff_prover]
proof fn lemma_rt_stickersetpage(w: Seq<char>)
    requires
        valid_word(w, CharClass::StickerId),
    ensures
        parse_callback(callback_text(CallbackDataView::StickerSetPage(w))) == Some(CallbackDataView::StickerSetPage(w)),
{
    reveal_strlit("start");
    reveal_strlit("settings");
    reveal_strlit("features");
    reveal_strlit("exdia");
    reveal_strlit("pop");
    reveal_strlit("gstats");
    reveal_strlit("pstats");
    reveal_strlit("lsets");
    reveal_strlit("help");
    reveal_strlit("blacklist");
    reveal_strlit("info");
    reveal_strlit("noaction");
    reveal_strlit("removeuser");
    reveal_strlit("linkself");
    reveal_strlit("createtag");
    reveal_strlit("removechannel");
    reveal_strlit("removebl;");
    reveal_strlit("removec;");
    reveal_strlit("s;");
    reveal_strlit(";");
    reveal_strlit("t");
    reveal_strlit("u");
    reveal_strlit("chset;");
    reveal_strlit("ban");
    reveal_strlit("unban");
    reveal_strlit("userinfo;");
    reveal_strlit("order;");
    reveal_strlit("cat;");
    reveal_strlit("cat;none");
    reveal_strlit("none");
    reveal_strlit("ras;");
    reveal_strlit("lock;");
    reveal_strlit("lock");
    reveal_strlit("unlock");
    reveal_strlit("rec;");
    reveal_strlit("positive");
    reveal_strlit("negative");
    reveal_strlit("ssp;");
    reveal_strlit("dls;");
    reveal_strlit("sep;");
    reveal_strlit("tex;");
    reveal_strlit("fav;");
    reveal_strlit("add");
    reveal_strlit("remove");
    reveal_strlit("merge;");
    reveal_strlit("true");
    reveal_strlit("false");
    let s = callback_text(CallbackDataView::StickerSetPage(w));
    assert(s[0] == 's');
    assert(s[1] == 's');
    assert(s[2] == 'p');
    assert(s[3] == ';');
    assert(s.subrange(0, 4) =~= "ssp;"@);
    lemma_kw(s, 0, "ssp;"@);
    assert(s.subrange(4, 4 + w.len() as int) =~= w);
    lemma_word_sub(s, 4, w, CharClass::StickerId);
}

#[verifier::spinoff_prover]
proof fn lemma_rt_downloadsticker(w: Seq<char>)
    requires
        valid_word(w, CharClass::StickerId),
    ensures
        parse_callback(callback_text(CallbackDataView::DownloadSticker(w))) == Some(CallbackDataView::DownloadSticker(w)),
{
    reveal_strlit("start");
    reveal_strlit("settings");
    reveal_strlit("features");
    reveal_strlit("exdia");
    reveal_strlit("pop");
    reveal_strlit("gstats");
    reveal_strlit("pstats");
    reveal_strlit("lsets");
    reveal_strlit("help");
    reveal_strlit("blacklist");
    reveal_strlit("info");
    reveal_strlit("noaction");
    reveal_strlit("removeuser");
    reveal_strlit("linkself");
    reveal_strlit("createtag");
    reveal_strlit("removechannel");
    reveal_strlit("removebl;");
    reveal_strlit("removec;");
    reveal_strlit("s;");
    reveal_strlit(";");
    reveal_strlit("t");
    reveal_strlit("u");
    reveal_strlit("chset;");
    reveal_strlit("ban");
    reveal_strlit("unban");
    reveal_strlit("userinfo;");
    reveal_strlit("order;");
    reveal_strlit("cat;");
    reveal_strlit("cat;none");
    reveal_strlit("none");
    reveal_strlit("ras;");
    reveal_strlit("lock;");
    reveal_strlit("lock");
    reveal_strlit("unlock");
    reveal_strlit("rec;");
    reveal_strlit("positive");
    reveal_strlit("negative");
    reveal_strlit("ssp;");
    reveal_strlit("dls;");
    reveal_strlit("sep;");
    reveal_strlit("tex;");
    reveal_strlit("fav;");
    reveal_strlit("add");
    reveal_strlit("remove");
    reveal_strlit("merge;");
    reveal_strlit("true");
    reveal_strlit("false");
    let s = callback_text(CallbackDataView::DownloadSticker(w));
    assert(s[0] == 'd');
    assert(s[1] == 'l');
    assert(s[2] == 's');
    assert(s[3] == ';');
    assert(s.subrange(0, 4) =~= "dls;"@);
    lemma_kw(s, 0, "dls;"@);
    assert(s.subrange(4, 4 + w.len() as int) =~= w);
    lemma_word_sub(s, 4, w, CharClass::StickerId);
}

#[verifier::spinoff_prover]
proof fn lemma_rt_stickerexplorepage(w: Seq<char>)
    requires
        valid_word(w, CharClass::StickerId),
    ensures
        parse_callback(callback_text(CallbackDataView::StickerExplorePage(w))) == Some(CallbackDataView::StickerExplorePage(w)),
{
    reveal_strlit("start");
    reveal_strlit("settings");
    reveal_strlit("features");
    reveal_strlit("exdia");
    reveal_strlit("pop");
    reveal_strlit("gstats");
    reveal_strlit("pstats");
    reveal_strlit("lsets");
    reveal_strlit("help");
    reveal_strlit("blacklist");
    reveal_strlit("info");
    reveal_strlit("noaction");
    reveal_strlit("removeuser");
    reveal_strlit("linkself");
    reveal_strlit("createtag");
    reveal_strlit("removechannel");
    reveal_strlit("removebl;");
    reveal_strlit("removec;");
    reveal_strlit("s;");
    reveal_strlit(";");
    reveal_strlit("t");
    reveal_strlit("u");
    reveal_strlit("chset;");
    reveal_strlit("ban");
    reveal_strlit("unban");
    reveal_strlit("userinfo;");
    reveal_strlit("order;");
    reveal_strlit("cat;");
    reveal_strlit("cat;none");
    reveal_strlit("none");
    reveal_strlit("ras;");
    reveal_strlit("lock;");
    reveal_strlit("lock");
    reveal_strlit("unlock");
    reveal_strlit("rec;");
    reveal_strlit("positive");
    reveal_strlit("negative");
    reveal_strlit("ssp;");
    reveal_strlit("dls;");
    reveal_strlit("sep;");
    reveal_strlit("tex;");
    reveal_strlit("fav;");
    reveal_strlit("add");
    reveal_strlit("remove");
    reveal_strlit("merge;");
    reveal_strlit("true");
    reveal_strlit("false");
    let s = callback_text(CallbackDataView::StickerExplorePage(w));
    assert(s[0] == 's');
    assert(s[1] == 'e');
    assert(s[2] == 'p');
    assert(s[3] == ';');
    assert(s.subrange(0, 4) =~= "sep;"@);
    lemma_kw(s, 0, "sep;"@);
    assert(s.subrange(4, 4 + w.len() as int) =~= w);
    lemma_word_sub(s, 4, w, CharClass::StickerId);
}

#[verifier::spinoff_prover]
proof fn lemma_rt_toggleexamplesticker(w: Seq<char>)
    requires
        valid_word(w, CharClass::StickerId),
    ensures
        parse_callback(callback_text(CallbackDataView::ToggleExampleSticker(w))) == Some(CallbackDataView::ToggleExampleSticker(w)),
{
    reveal_strlit("start");
    reveal_strlit("settings");
    reveal_strlit("features");
    reveal_strlit("exdia");
    reveal_strlit("pop");
    reveal_strlit("gstats");
    reveal_strlit("pstats");
    reveal_strlit("lsets");
    reveal_strlit("help");
    reveal_strlit("blacklist");
    reveal_strlit("info");
    reveal_strlit("noaction");
    reveal_strlit("removeuser");
    reveal_strlit("linkself");
    reveal_strlit("createtag");
    reveal_strlit("removechannel");
    reveal_strlit("removebl;");
    reveal_strlit("removec;");
    reveal_strlit("s;");
    reveal_strlit(";");
    reveal_strlit("t");
    reveal_strlit("u");
    reveal_strlit("chset;");
    reveal_strlit("ban");
    reveal_strlit("unban");
    reveal_strlit("userinfo;");
    reveal_strlit("order;");
    reveal_strlit("cat;");
    reveal_strlit("cat;none");
    reveal_strlit("none");
    reveal_strlit("ras;");
    reveal_strlit("lock;");
    reveal_strlit("lock");
    reveal_strlit("unlock");
    reveal_strlit("rec;");
    reveal_strlit("positive");
    reveal_strlit("negative");
    reveal_strlit("ssp;");
    reveal_strlit("dls;");
    reveal_strlit("sep;");
    reveal_strlit("tex;");
    reveal_strlit("fav;");
    reveal_strlit("add");
    reveal_strlit("remove");
    reveal_strlit("merge;");
    reveal_strlit("true");
    reveal_strlit("false");
    let s = callback_text(CallbackDataView::ToggleExampleSticker(w));
    assert(s[0] == 't');
    assert(s[1] == 'e');
    assert(s[2] == 'x');
    assert(s[3] == ';');
    assert(s.subrange(0, 4) =~= "tex;"@);
    lemma_kw(s, 0, "tex;"@);
    assert(s.subrange(4, 4 + w.len() as int) =~= w);
    lemma_word_sub(s, 4, w, CharClass::StickerId);
}

#[verifier::spinoff_prover]
proof fn lemma_rt_ownerpage(w: Seq<char>)
    requires
        valid_word(w, CharClass::StickerId),
    ensures
        parse_callback(callback_text(CallbackDataView::OwnerPage(w))) == Some(CallbackDataView::OwnerPage(w)),
{
    reveal_strlit("start");
    reveal_strlit("settings");
    reveal_strlit("features");
    reveal_strlit("exdia");
    reveal_strlit("pop");
    reveal_strlit("gstats");
    reveal_strlit("pstats");
    reveal_strlit("lsets");
    reveal_strlit("help");
    reveal_strlit("blacklist");
    reveal_strlit("info");
    reveal_strlit("noaction");
    reveal_strlit("removeuser");
    reveal_strlit("linkself");
    reveal_strlit("createtag");
    reveal_strlit("removechannel");
    reveal_strlit("removebl;");
    reveal_strlit("removec;");
    reveal_strlit("s;");
    reveal_strlit(";");
    reveal_strlit("t");
    reveal_strlit("u");
    reveal_strlit("chset;");
    reveal_strlit("ban");
    reveal_strlit("unban");
    reveal_strlit("userinfo;");
    reveal_strlit("order;");
    reveal_strlit("cat;");
    reveal_strlit("cat;none");
    reveal_strlit("none");
    reveal_strlit("ras;");
    reveal_strlit("lock;");
    reveal_strlit("lock");
    reveal_strlit("unlock");
    reveal_strlit("rec;");
    reveal_strlit("positive");
    reveal_strlit("negative");
    reveal_strlit("ssp;");
    reveal_strlit("dls;");
    reveal_strlit("sep;");
    reveal_strlit("tex;");
    reveal_strlit("fav;");
    reveal_strlit("add");
    reveal_strlit("remove");
    reveal_strlit("merge;");
    reveal_strlit("true");
    reveal_strlit("false");
    reveal_strlit("owner;");
    let s = callback_text(CallbackDataView::OwnerPage(w));
    assert(s[0] == 'o');
    assert(s[1] == 'w');
    assert(s[2] == 'n');
    assert(s[3] == 'e');
    assert(s[4] == 'r');
    assert(s[5] == ';');
    assert(s.subrange(0, 6) =~= "owner;"@);
    lemma_kw(s, 0, "owner;"@);
    assert(s.subrange(6, 6 + w.len() as int) =~= w);
    lemma_word_sub(s, 6, w, CharClass::StickerId);
}

#[verifier::spinoff_prover]
proof fn lemma_rt_changesetstatus(w: Seq<char>, b: bool)
    requires
        valid_word(w, CharClass::Tag),
    ensures
        parse_callback(callback_text(CallbackDataView::ChangeSetStatus(w, b))) == Some(CallbackDataView::ChangeSetStatus(w, b)),
{
    reveal_strlit("start");
    reveal_strlit("settings");
    reveal_strlit("features");
    reveal_strlit("exdia");
    reveal_strlit("pop");
    reveal_strlit("gstats");
    reveal_strlit("pstats");
    reveal_strlit("lsets");
    reveal_strlit("help");
    reveal_strlit("blacklist");
    reveal_strlit("info");
    reveal_strlit("noaction");
    reveal_strlit("removeuser");
    reveal_strlit("linkself");
    reveal_strlit("createtag");
    reveal_strlit("removechannel");
    reveal_strlit("removebl;");
    reveal_strlit("removec;");
    reveal_strlit("s;");
    reveal_strlit(";");
    reveal_strlit("t");
    reveal_strlit("u");
    reveal_strlit("chset;");
    reveal_strlit("ban");
    reveal_strlit("unban");
    reveal_strlit("userinfo;");
    reveal_strlit("order;");
    reveal_strlit("cat;");
    reveal_strlit("cat;none");
    reveal_strlit("none");
    reveal_strlit("ras;");
    reveal_strlit("lock;");
    reveal_strlit("lock");
    reveal_strlit("unlock");
    reveal_strlit("rec;");
    reveal_strlit("positive");
    reveal_strlit("negative");
    reveal_strlit("ssp;");
    reveal_strlit("dls;");
    reveal_strlit("sep;");
    reveal_strlit("tex;");
    reveal_strlit("fav;");
    reveal_strlit("add");
    reveal_strlit("remove");
    reveal_strlit("merge;");
    reveal_strlit("true");
    reveal_strlit("false");
    let s = callback_text(CallbackDataView::ChangeSetStatus(w, b));
    let k = w.len() as int;
    assert(s[0] == 'c');
    assert(s[1] == 'h');
    assert(s[2] == 's');
    assert(s[3] == 'e');
    assert(s[4] == 't');
    assert(s[5] == ';');
    assert(s.subrange(0, 6) =~= "chset;"@);
    lemma_kw(s, 0, "chset;"@);
    assert(s.subrange(6, 6 + k) =~= w);
    assert(s[6 + k] == ';');
    lemma_word_sub(s, 6, w, CharClass::Tag);
    assert(s.subrange(6 + k, 6 + k + 1) =~= ";"@);
    lemma_kw(s, 6 + k, ";"@);
    let j = 6 + k + 1;
    if b {
        assert(s.subrange(j, j + 3) =~= "ban"@);
        lemma_kw(s, j, "ban"@);
    } else {
        assert(s[j] == 'u');
        assert(s.subrange(j, j + 5) =~= "unban"@);
        lemma_kw(s, j, "unban"@);
    }
}

#[verifier::spinoff_prover]
proof fn lemma_rt_setlock(w: Seq<char>, b: bool)
    requires
        valid_word(w, CharClass::StickerId),
    ensures
        parse_callback(callback_text(CallbackDataView::SetLock(w, b))) == Some(CallbackDataView::SetLock(w, b)),
{
    reveal_strlit("start");
    reveal_strlit("settings");
    reveal_strlit("features");
    reveal_strlit("exdia");
    reveal_strlit("pop");
    reveal_strlit("gstats");
    reveal_strlit("pstats");
    reveal_strlit("lsets");
    reveal_strlit("help");
    reveal_strlit("blacklist");
    reveal_strlit("info");
    reveal_strlit("noaction");
    reveal_strlit("removeuser");
    reveal_strlit("linkself");
    reveal_strlit("createtag");
    reveal_strlit("removechannel");
    reveal_strlit("removebl;");
    reveal_strlit("removec;");
    reveal_strlit("s;");
    reveal_strlit(";");
    reveal_strlit("t");
    reveal_strlit("u");
    reveal_strlit("chset;");
    reveal_strlit("ban");
    reveal_strlit("unban");
    reveal_strlit("userinfo;");
    reveal_strlit("order;");
    reveal_strlit("cat;");
    reveal_strlit("cat;none");
    reveal_strlit("none");
    reveal_strlit("ras;");
    reveal_strlit("lock;");
    reveal_strlit("lock");
    reveal_strlit("unlock");
    reveal_strlit("rec;");
    reveal_strlit("positive");
    reveal_strlit("negative");
    reveal_strlit("ssp;");
    reveal_strlit("dls;");
    reveal_strlit("sep;");
    reveal_strlit("tex;");
    reveal_strlit("fav;");
    reveal_strlit("add");
    reveal_strlit("remove");
    reveal_strlit("merge;");
    reveal_strlit("true");
    reveal_strlit("false");
    let s = callback_text(CallbackDataView::SetLock(w, b));
    let k = w.len() as int;
    assert(s[0] == 'l');
    assert(s[1] == 'o');
    assert(s[2] == 'c');
    assert(s[3] == 'k');
    assert(s[4] == ';');
    assert(s.subrange(0, 5) =~= "lock;"@);
    lemma_kw(s, 0, "lock;"@);
    assert(s.subrange(5, 5 + k) =~= w);
    assert(s[5 + k] == ';');
    lemma_word_sub(s, 5, w, CharClass::StickerId);
    assert(s.subrange(5 + k, 5 + k + 1) =~= ";"@);
    lemma_kw(s, 5 + k, ";"@);
    let j = 5 + k + 1;
    if b {
        assert(s.subrange(j, j + 4) =~= "lock"@);
        lemma_kw(s, j, "lock"@);
    } else {
        assert(s[j] == 'u');
        assert(s.subrange(j, j + 6) =~= "unlock"@);
        lemma_kw(s, j, "unlock"@);
    }
}

#[verifier::spinoff_prover]
proof fn lemma_rt_togglerecommendsticker(w: Seq<char>, b: bool)
    requires
        valid_word(w, CharClass::StickerId),
    ensures
        parse_callback(callback_text(CallbackDataView::ToggleRecommendSticker(w, b))) == Some(CallbackDataView::ToggleRecommendSticker(w, b)),
{
    reveal_strlit("start");
    reveal_strlit("settings");
    reveal_strlit("features");
    reveal_strlit("exdia");
    reveal_strlit("pop");
    reveal_strlit("gstats");
    reveal_strlit("pstats");
    reveal_strlit("lsets");
    reveal_strlit("help");
    reveal_strlit("blacklist");
    reveal_strlit("info");
    reveal_strlit("noaction");
    reveal_strlit("removeuser");
    reveal_strlit("linkself");
    reveal_strlit("createtag");
    reveal_strlit("removechannel");
    reveal_strlit("removebl;");
    reveal_strlit("removec;");
    reveal_strlit("s;");
    reveal_strlit(";");
    reveal_strlit("t");
    reveal_strlit("u");
    reveal_strlit("chset;");
    reveal_strlit("ban");
    reveal_strlit("unban");
    reveal_strlit("userinfo;");
    reveal_strlit("order;");
    reveal_strlit("cat;");
    reveal_strlit("cat;none");
    reveal_strlit("none");
    reveal_strlit("ras;");
    reveal_strlit("lock;");
    reveal_strlit("lock");
    reveal_strlit("unlock");
    reveal_strlit("rec;");
    reveal_strlit("positive");
    reveal_strlit("negative");
    reveal_strlit("ssp;");
    reveal_strlit("dls;");
    reveal_strlit("sep;");
    reveal_strlit("tex;");
    reveal_strlit("fav;");
    reveal_strlit("add");
    reveal_strlit("remove");
    reveal_strlit("merge;");
    reveal_strlit("true");
    reveal_strlit("false");
    let s = callback_text(CallbackDataView::ToggleRecommendSticker(w, b));
    let k = w.len() as int;
    assert(s[0] == 'r');
    assert(s[1] == 'e');
    assert(s[2] == 'c');
    assert(s[3] == ';');
    assert(s.subrange(0, 4) =~= "rec;"@);
    lemma_kw(s, 0, "rec;"@);
    assert(s.subrange(4, 4 + k) =~= w);
    assert(s[4 + k] == ';');
    lemma_word_sub(s, 4, w, CharClass::StickerId);
    assert(s.subrange(4 + k, 4 + k + 1) =~= ";"@);
    lemma_kw(s, 4 + k, ";"@);
    let j = 4 + k + 1;
    if b {
        assert(s.subrange(j, j + 8) =~= "positive"@);
        lemma_kw(s, j, "positive"@);
    } else {
        assert(s[j] == 'n');
        assert(s.subrange(j, j + 8) =~= "negative"@);
        lemma_kw(s, j, "negative"@);
    }
}

#[verifier::rlimit(60)]
#[verifier::spinoff_prover]
proof fn lemma_rt_favoritesticker(w: Seq<char>, b: bool)
    requires
        valid_word(w, CharClass::StickerId),
    ensures
        parse_callback(callback_text(CallbackDataView::FavoriteSticker(w, if b { FavoriteAction::Favorite } else { FavoriteAction::Unfavorite }))) == Some(CallbackDataView::FavoriteSticker(w, if b { FavoriteAction::Favorite } else { FavoriteAction::Unfavorite })),
{
    reveal_strlit("start");
    reveal_strlit("settings");
    reveal_strlit("features");
    reveal_strlit("exdia");
    reveal_strlit("pop");
    reveal_strlit("gstats");
    reveal_strlit("pstats");
    reveal_strlit("lsets");
    reveal_strlit("help");
    reveal_strlit("blacklist");
    reveal_strlit("info");
    reveal_strlit("noaction");
    reveal_strlit("removeuser");
    reveal_strlit("linkself");
    reveal_strlit("createtag");
    reveal_strlit("removechannel");
    reveal_strlit("removebl;");
    reveal_strlit("removec;");
    reveal_strlit("s;");
    reveal_strlit(";");
    reveal_strlit("t");
    reveal_strlit("u");
    reveal_strlit("chset;");
    reveal_strlit("ban");
    reveal_strlit("unban");
    reveal_strlit("userinfo;");
    reveal_strlit("order;");
    reveal_strlit("cat;");
    reveal_strlit("cat;none");
    reveal_strlit("none");
    reveal_strlit("ras;");
    reveal_strlit("lock;");
    reveal_strlit("lock");
    reveal_strlit("unlock");
    reveal_strlit("rec;");
    reveal_strlit("positive");
    reveal_strlit("negative");
    reveal_strlit("ssp;");
    reveal_strlit("dls;");
    reveal_strlit("sep;");
    reveal_strlit("tex;");
    reveal_strlit("fav;");
    reveal_strlit("add");
    reveal_strlit("remove");
    reveal_strlit("merge;");
    reveal_strlit("true");
    reveal_strlit("false");
    let s = callback_text(CallbackDataView::FavoriteSticker(w, if b { FavoriteAction::Favorite } else { FavoriteAction::Unfavorite }));
    let k = w.len() as int;
    assert(s[0] == 'f');
    assert(s[1] == 'a');
    assert(s[2] == 'v');
    assert(s[3] == ';');
    assert(s.subrange(0, 4) =~= "fav;"@);
    lemma_kw(s, 0, "fav;"@);
    assert(s.subrange(4, 4 + k) =~= w);
    assert(s[4 + k] == ';');
    lemma_word_sub(s, 4, w, CharClass::StickerId);
    assert(s.subrange(4 + k, 4 + k + 1) =~= ";"@);
    lemma_kw(s, 4 + k, ";"@);
    let j = 4 + k + 1;
    if b {
        assert(s.subrange(j, j + 3) =~= "add"@);
        lemma_kw(s, j, "add"@);
    } else {
        assert(s[j] == 'r');
        assert(s.subrange(j, j + 6) =~= "remove"@);
        lemma_kw(s, j, "remove"@);
    }
}

proof fn lemma_sticker_prefix(id: Seq<char>, s: Seq<char>, post: Seq<char>)
    requires
        valid_word(id, CharClass::StickerId),
        s == "s;"@ + id + ";"@ + post,
    ensures
        kw_word(s, "s;"@, CharClass::StickerId) == Some((id, 2 + id.len() as int)),
        kw_to(s, 2 + id.len() as int, ";"@) == Some(3 + id.len() as int),
        s.subrange(3 + id.len() as int, s.len() as int) == post,
{
    reveal_strlit("s;");
    reveal_strlit(";");
    let k = id.len() as int;
    assert(s[0] == 's');
    assert(s[1] == ';');
    assert(s.subrange(0, 2) =~= "s;"@);
    lemma_kw(s, 0, "s;"@);
    assert(s.subrange(2, 2 + k) =~= id);
    assert(s[2 + k] == ';');
    lemma_word_sub(s, 2, id, CharClass::StickerId);
    assert(s.subrange(2 + k, 3 + k) =~= ";"@);
    lemma_kw(s, 2 + k, ";"@);
    assert(s.subrange(3 + k, s.len() as int) =~= post);
}

proof fn lemma_tag_operation(s: Seq<char>, j: int, op: Option<TagOperationView>)
    requires
        0 <= j <= s.len(),
        s.subrange(j, s.len() as int) == tag_operation_text(op),
        match op {
            Some(TagOperationView::Tag(t)) => valid_word(t, CharClass::Tag),
            Some(TagOperationView::Untag(t)) => valid_word(t, CharClass::Tag),
            None => true,
        },
    ensures
        opt_tag_operation(s, j) == (op, s.len() as int),
{
    reveal_strlit("t;");
    reveal_strlit("u;");
    reveal_strlit(";");
    reveal_strlit("t");
    reveal_strlit("u");
    let post = s.subrange(j, s.len() as int);
    match op {
        Some(TagOperationView::Tag(t)) => {
            assert(tag_operation_text(op) == "t;"@ + t);
            assert(post.len() == 2 + t.len());
            assert(post[0] == 't');
            assert(post[1] == ';');
            assert(s[j] == post[0]);
            assert(s[j + 1] == post[1]);
            assert(s.subrange(j, j + 1) =~= "t"@);
            lemma_kw(s, j, "t"@);
            assert(s.subrange(j + 1, j + 2) =~= ";"@);
            lemma_kw(s, j + 1, ";"@);
            assert forall|i: int| 0 <= i < t.len() implies #[trigger] s.subrange(j + 2, j + 2 + t.len())[i] == t[i] by {
                assert(s[j + 2 + i] == post[2 + i]);
                assert(post[2 + i] == t[i]);
            }
            assert(s.subrange(j + 2, j + 2 + t.len()) =~= t);
            lemma_word_sub(s, j + 2, t, CharClass::Tag);
        },
        Some(TagOperationView::Untag(t)) => {
            assert(tag_operation_text(op) == "u;"@ + t);
            assert(post.len() == 2 + t.len());
            assert(post[0] == 'u');
            assert(post[1] == ';');
            assert(s[j] == post[0]);
            assert(s[j + 1] == post[1]);
            assert(s.subrange(j, j + 1) =~= "u"@);
            lemma_kw(s, j, "u"@);
            assert(s.subrange(j + 1, j + 2) =~= ";"@);
            lemma_kw(s, j + 1, ";"@);
            assert forall|i: int| 0 <= i < t.len() implies #[trigger] s.subrange(j + 2, j + 2 + t.len())[i] == t[i] by {
                assert(s[j + 2 + i] == post[2 + i]);
                assert(post[2 + i] == t[i]);
            }
            assert(s.subrange(j + 2, j + 2 + t.len()) =~= t);
            lemma_word_sub(s, j + 2, t, CharClass::Tag);
        },
        None => {
            assert(s.len() == j);
        },
    }
}

proof fn lemma_sticker_alt(id: Seq<char>, op: Option<TagOperationView>)
    requires
        callback_wf(CallbackDataView::Sticker(id, op)),
    ensures
        p_sticker(callback_text(CallbackDataView::Sticker(id, op)))
            == Some((CallbackDataView::Sticker(id, op), callback_text(CallbackDataView::Sticker(id, op)).len() as int)),
{
    let s = callback_text(CallbackDataView::Sticker(id, op));
    lemma_sticker_prefix(id, s, tag_operation_text(op));
    lemma_tag_operation(s, 3 + id.len() as int, op);
}

#[verifier::spinoff_prover]
proof fn lemma_rt_sticker(id: Seq<char>, op: Option<TagOperationView>)
    requires
        callback_wf(CallbackDataView::Sticker(id, op)),
    ensures
        parse_callback(callback_text(CallbackDataView::Sticker(id, op))) == Some(CallbackDataView::Sticker(id, op)),
{
    reveal_strlit("s;");
    let s = callback_text(CallbackDataView::Sticker(id, op));
    assert(s[0] == 's');
    assert(s[1] == ';');
    assert(s.skip(0) =~= s);
    assert(p_simple(s) is None) by { reveal_strlit("start"); reveal_strlit("settings"); reveal_strlit("features"); reveal_strlit("exdia"); reveal_strlit("pop"); reveal_strlit("gstats"); reveal_strlit("pstats"); reveal_strlit("lsets"); reveal_strlit("help"); reveal_strlit("blacklist"); reveal_strlit("info"); reveal_strlit("noaction"); reveal_strlit("removeuser"); reveal_strlit("linkself"); reveal_strlit("createtag"); reveal_strlit("removechannel"); }
    assert(p_word(s, "removebl;"@, CharClass::Tag, 0) is None) by { reveal_strlit("removebl;"); }
    assert(p_word(s, "removec;"@, CharClass::Tag, 1) is None) by { reveal_strlit("removec;"); }
    lemma_sticker_alt(id, op);
}

#[verifier::rlimit(60)]
proof fn lemma_merge_alt(a: Seq<char>, b: Seq<char>, m: bool)
    requires
        valid_word(a, CharClass::StickerId),
        valid_word(b, CharClass::StickerId),
    ensures
        p_merge(callback_text(CallbackDataView::Merge(a, b, m)))
            == Some((CallbackDataView::Merge(a, b, m), callback_text(CallbackDataView::Merge(a, b, m)).len() as int)),
{
    reveal_strlit(";");
    reveal_strlit("merge;");
    reveal_strlit("true");
    reveal_strlit("false");
    let s = callback_text(CallbackDataView::Merge(a, b, m));
    let ka = a.len() as int;
    let kb = b.len() as int;
    assert(s[0] == 'm');
    assert(s[1] == 'e');
    assert(s[2] == 'r');
    assert(s[3] == 'g');
    assert(s[4] == 'e');
    assert(s[5] == ';');
    assert(s.subrange(0, 6) =~= "merge;"@);
    lemma_kw(s, 0, "merge;"@);
    assert(s.subrange(6, 6 + ka) =~= a);
    assert(s[6 + ka] == ';');
    lemma_word_sub(s, 6, a, CharClass::StickerId);
    assert(s.subrange(6 + ka, 7 + ka) =~= ";"@);
    lemma_kw(s, 6 + ka, ";"@);
    assert(s.subrange(7 + ka, 7 + ka + kb) =~= b);
    assert(s[7 + ka + kb] == ';');
    lemma_word_sub(s, 7 + ka, b, CharClass::StickerId);
    assert(s.subrange(7 + ka + kb, 8 + ka + kb) =~= ";"@);
    lemma_kw(s, 7 + ka + kb, ";"@);
    let j = 8 + ka + kb;
    if m {
        assert(s.subrange(j, j + 4) =~= "true"@);
        lemma_kw(s, j, "true"@);
    } else {
        assert(s[j] == 'f');
        assert(s.subrange(j, j + 5) =~= "false"@);
        lemma_kw(s, j, "false"@);
    }
}

#[verifier::spinoff_prover]
proof fn lemma_rt_merge(a: Seq<char>, b: Seq<char>, m: bool)
    requires
        valid_word(a, CharClass::StickerId),
        valid_word(b, CharClass::StickerId),
    ensures
        parse_callback(callback_text(CallbackDataView::Merge(a, b, m))) == Some(CallbackDataView::Merge(a, b, m)),
{
    reveal_strlit("merge;");
    let s = callback_text(CallbackDataView::Merge(a, b, m));
    assert(s[0] == 'm');
    assert(s.skip(0) =~= s);
    assert(p_simple(s) is None) by { reveal_strlit("start"); reveal_strlit("settings"); reveal_strlit("features"); reveal_strlit("exdia"); reveal_strlit("pop"); reveal_strlit("gstats"); reveal_strlit("pstats"); reveal_strlit("lsets"); reveal_strlit("help"); reveal_strlit("blacklist"); reveal_strlit("info"); reveal_strlit("noaction"); reveal_strlit("removeuser"); reveal_strlit("linkself"); reveal_strlit("createtag"); reveal_strlit("removechannel"); }
    assert(p_word(s, "removebl;"@, CharClass::Tag, 0) is None) by { reveal_strlit("removebl;"); }
    assert(p_word(s, "removec;"@, CharClass::Tag, 1) is None) by { reveal_strlit("removec;"); }
    assert(p_sticker(s) is None) by { reveal_strlit("s;"); }
    assert(p_change_set(s) is None) by { reveal_strlit("chset;"); }
    assert(p_user_info(s) is None) by { reveal_strlit("userinfo;"); }
    assert(p_order(s) is None) by { reveal_strlit("order;"); }
    assert(p_category(s) is None) by { reveal_strlit("cat;"); reveal_strlit("cat;none"); }
    assert(p_word(s, "ras;"@, CharClass::Tag, 2) is None) by { reveal_strlit("ras;"); }
    assert(p_lock(s) is None) by { reveal_strlit("lock;"); }
    assert(p_recommend(s) is None) by { reveal_strlit("rec;"); }
    assert(p_word(s, "ssp;"@, CharClass::StickerId, 3) is None) by { reveal_strlit("ssp;"); }
    assert(p_word(s, "dls;"@, CharClass::StickerId, 4) is None) by { reveal_strlit("dls;"); }
    assert(p_word(s, "sep;"@, CharClass::StickerId, 5) is None) by { reveal_strlit("sep;"); }
    assert(p_word(s, "tex;"@, CharClass::StickerId, 6) is None) by { reveal_strlit("tex;"); }
    assert(p_favorite(s) is None) by { reveal_strlit("fav;"); }
    lemma_merge_alt(a, b, m);
}

#[verifier::spinoff_prover]
proof fn lemma_rt_user_info(u: u64)
    ensures
        parse_callback(callback_text(CallbackDataView::UserInfo(u))) == Some(CallbackDataView::UserInfo(u)),
{
    reveal_strlit("start");
    reveal_strlit("settings");
    reveal_strlit("features");
    reveal_strlit("exdia");
    reveal_strlit("pop");
    reveal_strlit("gstats");
    reveal_strlit("pstats");
    reveal_strlit("lsets");
    reveal_strlit("help");
    reveal_strlit("blacklist");
    reveal_strlit("info");
    reveal_strlit("noaction");
    reveal_strlit("removeuser");
    reveal_strlit("linkself");
    reveal_strlit("createtag");
    reveal_strlit("removechannel");
    reveal_strlit("removebl;");
    reveal_strlit("removec;");
    reveal_strlit("s;");
    reveal_strlit(";");
    reveal_strlit("t");
    reveal_strlit("u");
    reveal_strlit("chset;");
    reveal_strlit("ban");
    reveal_strlit("unban");
    reveal_strlit("userinfo;");
    reveal_strlit("order;");
    reveal_strlit("cat;");
    reveal_strlit("cat;none");
    reveal_strlit("none");
    reveal_strlit("ras;");
    reveal_strlit("lock;");
    reveal_strlit("lock");
    reveal_strlit("unlock");
    reveal_strlit("rec;");
    reveal_strlit("positive");
    reveal_strlit("negative");
    reveal_strlit("ssp;");
    reveal_strlit("dls;");
    reveal_strlit("sep;");
    reveal_strlit("tex;");
    reveal_strlit("fav;");
    reveal_strlit("add");
    reveal_strlit("remove");
    reveal_strlit("merge;");
    reveal_strlit("true");
    reveal_strlit("false");
    let s = callback_text(CallbackDataView::UserInfo(u));
    assert(s[0] == 'u');
    assert(s[1] == 's');
    assert(s[2] == 'e');
    assert(s[3] == 'r');
    assert(s[4] == 'i');
    assert(s[5] == 'n');
    assert(s[6] == 'f');
    assert(s[7] == 'o');
    assert(s[8] == ';');
    assert(s.subrange(0, 9) =~= "userinfo;"@);
    lemma_kw(s, 0, "userinfo;"@);
    assert(s.skip(9) =~= dec(u as nat) + Seq::<char>::empty());
    lemma_grammar_unsigned_dec(u as nat, Seq::<char>::empty(), u64::MAX as nat);
}

#[verifier::spinoff_prover]
proof fn lemma_rt_order(o: StickerOrder)
    ensures
        parse_callback(callback_text(CallbackDataView::SetOrder(o))) == Some(CallbackDataView::SetOrder(o)),
{
    reveal_strlit("start");
    reveal_strlit("settings");
    reveal_strlit("features");
    reveal_strlit("exdia");
    reveal_strlit("pop");
    reveal_strlit("gstats");
    reveal_strlit("pstats");
    reveal_strlit("lsets");
    reveal_strlit("help");
    reveal_strlit("blacklist");
    reveal_strlit("info");
    reveal_strlit("noaction");
    reveal_strlit("removeuser");
    reveal_strlit("linkself");
    reveal_strlit("createtag");
    reveal_strlit("removechannel");
    reveal_strlit("removebl;");
    reveal_strlit("removec;");
    reveal_strlit("s;");
    reveal_strlit(";");
    reveal_strlit("t");
    reveal_strlit("u");
    reveal_strlit("chset;");
    reveal_strlit("ban");
    reveal_strlit("unban");
    reveal_strlit("userinfo;");
    reveal_strlit("order;");
    reveal_strlit("cat;");
    reveal_strlit("cat;none");
    reveal_strlit("none");
    reveal_strlit("ras;");
    reveal_strlit("lock;");
    reveal_strlit("lock");
    reveal_strlit("unlock");
    reveal_strlit("rec;");
    reveal_strlit("positive");
    reveal_strlit("negative");
    reveal_strlit("ssp;");
    reveal_strlit("dls;");
    reveal_strlit("sep;");
    reveal_strlit("tex;");
    reveal_strlit("fav;");
    reveal_strlit("add");
    reveal_strlit("remove");
    reveal_strlit("merge;");
    reveal_strlit("true");
    reveal_strlit("false");
    let s = callback_text(CallbackDataView::SetOrder(o));
    assert(s[0] == 'o');
    assert(s[1] == 'r');
    assert(s[2] == 'd');
    assert(s[3] == 'e');
    assert(s[4] == 'r');
    assert(s[5] == ';');
    assert(s.subrange(0, 6) =~= "order;"@);
    lemma_kw(s, 0, "order;"@);
    crate::model::lemma_order_text_reads_back(o);
    assert(dec(0) =~= seq!['0']);
    assert(dec(1) =~= seq!['1']);
    match o {
        StickerOrder::LatestFirst => {
            assert(s.skip(6) =~= dec(0));
        },
        StickerOrder::Random => {
            assert(s.skip(6) =~= dec(1));
        },
    }
}

#[verifier::spinoff_prover]
proof fn lemma_rt_category(c: Option<Category>)
    ensures
        parse_callback(callback_text(CallbackDataView::SetCategory(c))) == Some(CallbackDataView::SetCategory(c)),
{
    reveal_strlit("start");
    reveal_strlit("settings");
    reveal_strlit("features");
    reveal_strlit("exdia");
    reveal_strlit("pop");
    reveal_strlit("gstats");
    reveal_strlit("pstats");
    reveal_strlit("lsets");
    reveal_strlit("help");
    reveal_strlit("blacklist");
    reveal_strlit("info");
    reveal_strlit("noaction");
    reveal_strlit("removeuser");
    reveal_strlit("linkself");
    reveal_strlit("createtag");
    reveal_strlit("removechannel");
    reveal_strlit("removebl;");
    reveal_strlit("removec;");
    reveal_strlit("s;");
    reveal_strlit(";");
    reveal_strlit("t");
    reveal_strlit("u");
    reveal_strlit("chset;");
    reveal_strlit("ban");
    reveal_strlit("unban");
    reveal_strlit("userinfo;");
    reveal_strlit("order;");
    reveal_strlit("cat;");
    reveal_strlit("cat;none");
    reveal_strlit("none");
    reveal_strlit("ras;");
    reveal_strlit("lock;");
    reveal_strlit("lock");
    reveal_strlit("unlock");
    reveal_strlit("rec;");
    reveal_strlit("positive");
    reveal_strlit("negative");
    reveal_strlit("ssp;");
    reveal_strlit("dls;");
    reveal_strlit("sep;");
    reveal_strlit("tex;");
    reveal_strlit("fav;");
    reveal_strlit("add");
    reveal_strlit("remove");
    reveal_strlit("merge;");
    reveal_strlit("true");
    reveal_strlit("false");
    let s = callback_text(CallbackDataView::SetCategory(c));
    assert(s[0] == 'c');
    assert(s[1] == 'a');
    assert(s[2] == 't');
    assert(s[3] == ';');
    assert(s.subrange(0, 4) =~= "cat;"@);
    lemma_kw(s, 0, "cat;"@);
    match c {
        Some(cat) => {
            assert(s.skip(4) =~= dec(cat.spec_to_u8() as nat) + Seq::<char>::empty());
            lemma_grammar_unsigned_dec(cat.spec_to_u8() as nat, Seq::<char>::empty(), 255);
        },
        None => {
            assert(s[4] == 'n');
            assert(s.skip(4)[0] == 'n');
            assert(s.subrange(0, 8) =~= "cat;none"@);
            lemma_kw(s, 0, "cat;none"@);
        },
    }
}

/// Reading back the text of a well-formed action gives that action: a
/// button's text denotes exactly the action it was made from.
pub proof fn lemma_callback_text_roundtrip(d: CallbackDataView)
    requires
        callback_wf(d),
    ensures
        parse_callback(callback_text(d)) == Some(d),
{
    match d {
        CallbackDataView::Start => lemma_rt_start(),
        CallbackDataView::Settings => lemma_rt_settings(),
        CallbackDataView::FeatureOverview => lemma_rt_featureoverview(),
        CallbackDataView::ExitDialog => lemma_rt_exitdialog(),
        CallbackDataView::PopularTags => lemma_rt_populartags(),
        CallbackDataView::GeneralStats => lemma_rt_generalstats(),
        CallbackDataView::PersonalStats => lemma_rt_personalstats(),
        CallbackDataView::LatestSets => lemma_rt_latestsets(),
        CallbackDataView::Help => lemma_rt_help(),
        CallbackDataView::Blacklist => lemma_rt_blacklist(),
        CallbackDataView::Info => lemma_rt_info(),
        CallbackDataView::NoAction => lemma_rt_noaction(),
        CallbackDataView::RemoveLinkedUser => lemma_rt_removelinkeduser(),
        CallbackDataView::LinkSelf => lemma_rt_linkself(),
        CallbackDataView::CreateTag => lemma_rt_createtag(),
        CallbackDataView::RemoveLinkedChannel => lemma_rt_removelinkedchannel(),
        CallbackDataView::RemoveBlacklistedTag(w) => lemma_rt_removeblacklistedtag(w),
        CallbackDataView::RemoveContinuousTag(w) => lemma_rt_removecontinuoustag(w),
        CallbackDataView::RemoveAlias(w) => lemma_rt_removealias(w),
        CallbackDataView::StickerSetPage(w) => lemma_rt_stickersetpage(w),
        CallbackDataView::DownloadSticker(w) => lemma_rt_downloadsticker(w),
        CallbackDataView::StickerExplorePage(w) => lemma_rt_stickerexplorepage(w),
        CallbackDataView::ToggleExampleSticker(w) => lemma_rt_toggleexamplesticker(w),
        CallbackDataView::OwnerPage(w) => lemma_rt_ownerpage(w),
        CallbackDataView::ChangeSetStatus(w, b) => lemma_rt_changesetstatus(w, b),
        CallbackDataView::SetLock(w, b) => lemma_rt_setlock(w, b),
        CallbackDataView::ToggleRecommendSticker(w, b) => lemma_rt_togglerecommendsticker(w, b),
        CallbackDataView::FavoriteSticker(w, a) => lemma_rt_favoritesticker(w, a == FavoriteAction::Favorite),
        CallbackDataView::Sticker(id, op) => lemma_rt_sticker(id, op),
        CallbackDataView::Merge(a, b, m) => lemma_rt_merge(a, b, m),
        CallbackDataView::UserInfo(u) => lemma_rt_user_info(u),
        CallbackDataView::SetOrder(o) => lemma_rt_order(o),
        CallbackDataView::SetCategory(c) => lemma_rt_category(c),
    }
}

} // verus!
