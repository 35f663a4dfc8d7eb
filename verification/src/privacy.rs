//! The privacy policy that the bot shows, section by section.
use vstd::prelude::*;

verus! {

/// A section of the privacy policy.
#[derive(PartialEq, Clone, Copy, Debug, Eq)]
pub enum PrivacyPolicy {
    Introduction,
    License,
    DataCollection,
    DataUsage,
}

/// The text of the introduction.
pub const INTRODUCTION_TEXT: &'static str = r#"*Terms of Service & Privacy Policy*

FuzzleBot is a personal project\. As such, we try to protect your privacy to an extent reasonable for a personal project\.
"#;

/// The text of the license section.
pub const LICENSE_TEXT: &'static str = r#"*License*

FuzzleBot, a Telegram bot for organizing furry sticker sets
Copyright \(C\) 2024 Avoonix

This program is free software: you can redistribute it and/or modify
it under the terms of the GNU Affero General Public License as published
by the Free Software Foundation, either version 3 of the License, or
\(at your option\) any later version\.

This program is distributed in the hope that it will be useful,
but WITHOUT ANY WARRANTY; without even the implied warranty of
MERCHANTABILITY or FITNESS FOR A PARTICULAR PURPOSE\.  See the
GNU Affero General Public License for more details\.

You should have received a copy of the GNU Affero General Public License
along with this program\.  If not, see [gnu\.org/licenses](https://www.gnu.org/licenses/)\.
"#;

/// The text of the data collection section.
pub const DATA_COLLECTION_TEXT: &'static str = r#"*Data Collection*

The bot collects:

Public information about sticker sets shared by users including, but not limited to: id, title, name, sticker files, and thumbnails\.

Public information about users interacting directly with the bot or indirectly by other users \(for examlpe, by forwarding someone else\'s messages to the bot\) including, but not limited to: id, and username\.

Other information shared with the bot directly, such as settings, blacklist, tags, favorites, and other information for enhancing the user experience\.

Other data, such as usage information to prevent misuse\.

You can also inspect the [source code](https://github.com/avoonix/fuzzle-bot/blob/213692c7ec070f372175bd7bd8352ec884606171/fuzzle/src/database/schema.rs#L92) for details on which data is stored \(make sure to switch to the latest version\)\.
"#;

/// The text of the data usage section.
pub const DATA_USAGE_TEXT: &'static str = r#"*Data Usage*

The collected data is needed for the general operation of the bot \(such as finding stickers\) and user experience enhancement \(such as linking sticker packs to telegram users\)\.

Additionally, we may temporarily store parts of messages for debugging purposes in memory \(not persisted to disk\)\.

We do not share any information with advertisers\.
"#;

/// The number of a section (its place in the policy, from 0).
pub open spec fn policy_number(p: PrivacyPolicy) -> u8 {
    match p {
        PrivacyPolicy::Introduction => 0,
        PrivacyPolicy::License => 1,
        PrivacyPolicy::DataCollection => 2,
        PrivacyPolicy::DataUsage => 3,
    }
}

/// The text of a section.
pub open spec fn policy_text(p: PrivacyPolicy) -> Seq<char> {
    match p {
        PrivacyPolicy::Introduction => INTRODUCTION_TEXT@,
        PrivacyPolicy::License => LICENSE_TEXT@,
        PrivacyPolicy::DataCollection => DATA_COLLECTION_TEXT@,
        PrivacyPolicy::DataUsage => DATA_USAGE_TEXT@,
    }
}

/// The title of a section.
pub open spec fn policy_title(p: PrivacyPolicy) -> Seq<char> {
    match p {
        PrivacyPolicy::Introduction => "Introduction"@,
        PrivacyPolicy::License => "License"@,
        PrivacyPolicy::DataCollection => "Data Collection"@,
        PrivacyPolicy::DataUsage => "Data Usage"@,
    }
}

/// Each section's text is a Telegram message: it starts with the section's
/// title in bold on a line of its own, followed by an empty line (the
/// introduction's title is that of the whole policy), and it ends with a
/// line break.  No two sections have the same text.
pub proof fn lemma_policy_text_shape(p: PrivacyPolicy, q: PrivacyPolicy)
    ensures
        p != PrivacyPolicy::Introduction ==> policy_text(p).take(policy_title(p).len() + 4int) == "*"@ + policy_title(p) + "*\n\n"@,
        policy_text(PrivacyPolicy::Introduction).take(37) == "*Terms of Service & Privacy Policy*\n\n"@,
        policy_text(p).len() > 0 && policy_text(p).last() == '\n',
        p != q ==> policy_text(p) != policy_text(q),
{
    reveal_strlit(r#"*Terms of Service & Privacy Policy*

FuzzleBot is a personal project\. As such, we try to protect your privacy to an extent reasonable for a personal project\.
"#);
    reveal_strlit(r#"*License*

FuzzleBot, a Telegram bot for organizing furry sticker sets
Copyright \(C\) 2024 Avoonix

This program is free software: you can redistribute it and/or modify
it under the terms of the GNU Affero General Public License as published
by the Free Software Foundation, either version 3 of the License, or
\(at your option\) any later version\.

This program is distributed in the hope that it will be useful,
but WITHOUT ANY WARRANTY; without even the implied warranty of
MERCHANTABILITY or FITNESS FOR A PARTICULAR PURPOSE\.  See the
GNU Affero General Public License for more details\.

You should have received a copy of the GNU Affero General Public License
along with this program\.  If not, see [gnu\.org/licenses](https://www.gnu.org/licenses/)\.
"#);
    reveal_strlit(r#"*Data Collection*

The bot collects:

Public information about sticker sets shared by users including, but not limited to: id, title, name, sticker files, and thumbnails\.

Public information about users interacting directly with the bot or indirectly by other users \(for examlpe, by forwarding someone else\'s messages to the bot\) including, but not limited to: id, and username\.

Other information shared with the bot directly, such as settings, blacklist, tags, favorites, and other information for enhancing the user experience\.

Other data, such as usage information to prevent misuse\.

You can also inspect the [source code](https://github.com/avoonix/fuzzle-bot/blob/213692c7ec070f372175bd7bd8352ec884606171/fuzzle/src/database/schema.rs#L92) for details on which data is stored \(make sure to switch to the latest version\)\.
"#);
    reveal_strlit(r#"*Data Usage*

The collected data is needed for the general operation of the bot \(such as finding stickers\) and user experience enhancement \(such as linking sticker packs to telegram users\)\.

Additionally, we may temporarily store parts of messages for debugging purposes in memory \(not persisted to disk\)\.

We do not share any information with advertisers\.
"#);
    reveal_strlit("*");
    reveal_strlit("*\n\n");
    reveal_strlit("*Terms of Service & Privacy Policy*\n\n");
    reveal_strlit("Introduction");
    reveal_strlit("License");
    reveal_strlit("Data Collection");
    reveal_strlit("Data Usage");
    assert(policy_text(PrivacyPolicy::Introduction).take(37) =~= "*Terms of Service & Privacy Policy*\n\n"@);
    assert(policy_text(PrivacyPolicy::License).take(11) =~= "*"@ + policy_title(PrivacyPolicy::License) + "*\n\n"@);
    assert(policy_text(PrivacyPolicy::DataCollection).take(19) =~= "*"@ + policy_title(PrivacyPolicy::DataCollection) + "*\n\n"@);
    assert(policy_text(PrivacyPolicy::DataUsage).take(14) =~= "*"@ + policy_title(PrivacyPolicy::DataUsage) + "*\n\n"@);
    if p != q {
        assert(policy_text(p)[1] != policy_text(q)[1] || policy_text(p)[6] != policy_text(q)[6]);
    }
}

impl PrivacyPolicy {
    /// The text of the section (Telegram MarkdownV2).
    pub fn text(&self) -> (r: &'static str)
        ensures
            r@ == policy_text(*self),
    {
        match self {
            PrivacyPolicy::Introduction => INTRODUCTION_TEXT,
            PrivacyPolicy::License => LICENSE_TEXT,
            PrivacyPolicy::DataCollection => DATA_COLLECTION_TEXT,
            PrivacyPolicy::DataUsage => DATA_USAGE_TEXT,
        }
    }

    /// The title of the section.
    pub fn title(&self) -> (r: &'static str)
        ensures
            r@ == policy_title(*self),
    {
        match self {
            PrivacyPolicy::Introduction => "Introduction",
            PrivacyPolicy::License => "License",
            PrivacyPolicy::DataCollection => "Data Collection",
            PrivacyPolicy::DataUsage => "Data Usage",
        }
    }

    /// The section with the given number, if there is one.
    pub fn from_u8(n: u8) -> (r: Option<PrivacyPolicy>)
        ensures
            r matches Some(p) ==> policy_number(p) == n,
            r is None <==> n > 3,
    {
        if n == 0 {
            Some(PrivacyPolicy::Introduction)
        } else if n == 1 {
            Some(PrivacyPolicy::License)
        } else if n == 2 {
            Some(PrivacyPolicy::DataCollection)
        } else if n == 3 {
            Some(PrivacyPolicy::DataUsage)
        } else {
            None
        }
    }

    /// The number of the section.
    pub fn to_u8(&self) -> (r: u8)
        ensures
            r == policy_number(*self),
    {
        match self {
            PrivacyPolicy::Introduction => 0,
            PrivacyPolicy::License => 1,
            PrivacyPolicy::DataCollection => 2,
            PrivacyPolicy::DataUsage => 3,
        }
    }
}

impl Default for PrivacyPolicy {
    /// The introduction comes first.
    fn default() -> (r: PrivacyPolicy)
        ensures
            r == PrivacyPolicy::Introduction,
    {
        PrivacyPolicy::Introduction
    }
}

} // verus!
