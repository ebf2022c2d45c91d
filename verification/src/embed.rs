//! The text that goes into the bot's embeds about scores and sessions.
use num_format::{Locale, ToFormattedString};
use vstd::prelude::*;
use vstd::string::*;
use crate::osu_data::SessionInfo;
use crate::text::{contains_text, decimal, digit_char, has_substring, push_decimal};

verus! {

/// The last three decimal digits of `m`, zeros included.
pub open spec fn three_digits(m: nat) -> Seq<char> {
    seq![digit_char((m / 100) % 10), digit_char((m / 10) % 10), digit_char(m % 10)]
}

/// `n` in decimal with a "," before every group of three digits counted
/// from the right, as in "1,234,567".
pub open spec fn thousands(n: nat) -> Seq<char>
    decreases n,
{
    if n < 1000 {
        decimal(n)
    } else {
        thousands(n / 1000) + seq![','] + three_digits(n % 1000)
    }
}

/// Writes `n` the English way, with thousands separators.
///
/// Trusted: wraps num-format's `ToFormattedString::to_formatted_string`
/// with `Locale::en`. For `en` the crate groups digits by three
/// (`Grouping::Standard`) with the separator ","; an unsigned number gets
/// no sign. The contract states exactly that spelling.
#[verifier::external_body]
fn format_en(n: u32) -> (s: String)
    ensures
        s@ == thousands(n as nat),
{
    n.to_formatted_string(&Locale::en)
}

/// The custom emoji of the bot's server that stands for `name` (a grade,
/// a badge, the star or a mod), by its id.
pub open spec fn emoji_id_of(name: Seq<char>) -> Option<u64> {
    if name == "XH"@ { Some(1246392671057219584u64) }
    else if name == "X"@ { Some(1246392672919355444u64) }
    else if name == "SH"@ { Some(1246392667974271008u64) }
    else if name == "S"@ { Some(1246392669245276171u64) }
    else if name == "D"@ { Some(1246392666506264606u64) }
    else if name == "C"@ { Some(1246392664887394304u64) }
    else if name == "B"@ { Some(1246392663234580542u64) }
    else if name == "A"@ { Some(1246392661418577930u64) }
    else if name == "PERFECT"@ { Some(1265878344998846614u64) }
    else if name == "FULL_COMBO"@ { Some(1265877040419049502u64) }
    else if name == "STAR"@ { Some(1317609239321251880u64) }
    else if name == "DT"@ { Some(1317624011781312583u64) }
    else if name == "HD"@ { Some(1317624422940672181u64) }
    else if name == "HR"@ { Some(1317624421489315971u64) }
    else if name == "NC"@ { Some(1317624424924446850u64) }
    else if name == "FL"@ { Some(1317624419249688717u64) }
    else if name == "PF"@ { Some(1317624426195320973u64) }
    else { None }
}

/// The notice shown in place of an emoji the bot does not have.
pub open spec fn missing_emoji_notice(name: Seq<char>) -> Seq<char> {
    "\nCucha no ha implementado el mod "@ + name + " yet\n ¯\\_(ツ)_/¯ \n"@
}

/// The mod acronyms shown with a score: every one except those that
/// contain "CL" (the classic mod), in order.
pub open spec fn kept_mods(acronyms: Seq<Seq<char>>) -> Seq<Seq<char>>
    decreases acronyms.len(),
{
    if acronyms.len() == 0 {
        Seq::empty()
    } else {
        kept_mods(acronyms.drop_last()) + if has_substring(acronyms.last(), "CL"@) {
            Seq::<Seq<char>>::empty()
        } else {
            seq![acronyms.last()]
        }
    }
}

/// The mods field: every emoji followed by three tabs.
pub open spec fn mods_text(emojis: Seq<Seq<char>>) -> Seq<char>
    decreases emojis.len(),
{
    if emojis.len() == 0 {
        Seq::empty()
    } else {
        mods_text(emojis.drop_last()) + emojis.last() + "\t\t\t"@
    }
}

/// The views of a sequence of strings.
pub open spec fn views(v: Seq<String>) -> Seq<Seq<char>> {
    v.map_values(|s: String| s@)
}

/// The text of the bot's embeds.
pub struct CuchaEmbed;

fn lit(s: &str) -> (r: String)
    ensures
        r@ == s@,
{
    String::from_str(s)
}

impl CuchaEmbed {
    /// The id of the emoji for `name`, or, when the bot has none, the
    /// notice that takes its place.
    pub fn find_emoji(name: &str) -> (found: Result<u64, String>)
        ensures
            emoji_id_of(name@) matches Some(id) ==> found == Ok::<u64, String>(id),
            emoji_id_of(name@) is None ==> (found matches Err(notice) && notice@
                == missing_emoji_notice(name@)),
    {
        let n = lit(name);
        if n == lit("XH") { Ok(1246392671057219584u64) }
        else if n == lit("X") { Ok(1246392672919355444u64) }
        else if n == lit("SH") { Ok(1246392667974271008u64) }
        else if n == lit("S") { Ok(1246392669245276171u64) }
        else if n == lit("D") { Ok(1246392666506264606u64) }
        else if n == lit("C") { Ok(1246392664887394304u64) }
        else if n == lit("B") { Ok(1246392663234580542u64) }
        else if n == lit("A") { Ok(1246392661418577930u64) }
        else if n == lit("PERFECT") { Ok(1265878344998846614u64) }
        else if n == lit("FULL_COMBO") { Ok(1265877040419049502u64) }
        else if n == lit("STAR") { Ok(1317609239321251880u64) }
        else if n == lit("DT") { Ok(1317624011781312583u64) }
        else if n == lit("HD") { Ok(1317624422940672181u64) }
        else if n == lit("HR") { Ok(1317624421489315971u64) }
        else if n == lit("NC") { Ok(1317624424924446850u64) }
        else if n == lit("FL") { Ok(1317624419249688717u64) }
        else if n == lit("PF") { Ok(1317624426195320973u64) }
        else {
            let mut notice = lit("\nCucha no ha implementado el mod ");
            notice.append(name);
            notice.append(" yet\n ¯\\_(ツ)_/¯ \n");
            Err(notice)
        }
    }

    /// The mods to show with a score: none when it has at most one mod,
    /// else all of them but the classic one.
    pub fn mods_to_show(acronyms: &Vec<String>) -> (shown: Option<Vec<String>>)
        ensures
            acronyms@.len() <= 1 ==> shown is None,
            acronyms@.len() > 1 ==> (shown matches Some(v) && views(v@) == kept_mods(
                views(acronyms@),
            )),
    {
        if acronyms.len() <= 1 {
            return None;
        }
        let mut kept: Vec<String> = Vec::new();
        let mut i: usize = 0;
        while i < acronyms.len()
            invariant
                i <= acronyms@.len(),
                views(kept@) == kept_mods(views(acronyms@.take(i as int))),
            decreases acronyms@.len() - i,
        {
            proof {
                assert(views(acronyms@.take(i + 1)).drop_last() =~= views(acronyms@.take(i as int)));
                assert(views(acronyms@.take(i + 1)).last() == acronyms@[i as int]@);
            }
            if !contains_text(acronyms[i].as_str(), "CL") {
                kept.push(acronyms[i].clone());
                assert(views(kept@) =~= kept_mods(views(acronyms@.take(i as int))).push(acronyms@[i as int]@));
            }
            assert(views(kept@) =~= kept_mods(views(acronyms@.take(i + 1))));
            i = i + 1;
        }
        assert(acronyms@.take(i as int) =~= acronyms@);
        Some(kept)
    }

    /// The mods field of a score embed, from the emojis of its mods.
    pub fn mods_field(emojis: &Vec<String>) -> (field: String)
        ensures
            field@ == mods_text(views(emojis@)),
    {
        let mut field = String::new();
        let mut i: usize = 0;
        while i < emojis.len()
            invariant
                i <= emojis@.len(),
                field@ == mods_text(views(emojis@.take(i as int))),
            decreases emojis@.len() - i,
        {
            proof {
                assert(views(emojis@.take(i + 1)).drop_last() =~= views(emojis@.take(i as int)));
                assert(views(emojis@.take(i + 1)).last() == emojis@[i as int]@);
            }
            field.append(emojis[i].as_str());
            field.append("\t\t\t");
            assert(field@ =~= mods_text(views(emojis@.take(i + 1))));
            i = i + 1;
        }
        assert(emojis@.take(i as int) =~= emojis@);
        field
    }

    /// The description of a score embed: the artist, the mapper and the
    /// difficulty of the map.
    pub fn score_description(artist: &str, creator: &str, version: &str) -> (text: String)
        ensures
            text@ == "by: "@ + artist@ + " \n"@ + "mapped by: "@ + creator@ + " \n"@ + "'"@
                + version@ + "'"@,
    {
        let mut text = lit("by: ");
        text.append(artist);
        text.append(" \n");
        text.append("mapped by: ");
        text.append(creator);
        text.append(" \n");
        text.append("'");
        text.append(version);
        text.append("'");
        text
    }

    /// The description of a user embed.
    pub fn new_score_text(username: &str) -> (text: String)
        ensures
            text@ == username@ + " got a new score!"@,
    {
        let mut text = lit(username);
        text.append(" got a new score!");
        text
    }

    /// The level line of the session recap.
    pub fn level_line(level: u32) -> (line: String)
        ensures
            line@ == "lv: "@ + decimal(level as nat) + "\n"@,
    {
        let mut line = lit("lv: ");
        push_decimal(&mut line, level as u64);
        line.append("\n");
        line
    }

    /// A global rank written with thousands separators, as the session
    /// recap shows it.
    pub fn rank_line(rank: u32) -> (line: String)
        ensures
            line@ == "rank: "@ + thousands(rank as nat) + "\n"@,
    {
        let mut line = lit("rank: ");
        line.append(format_en(rank).as_str());
        line.append("\n");
        line
    }

    /// A number with thousands separators, as the score embed shows the
    /// score.
    pub fn formatted_number(n: u32) -> (text: String)
        ensures
            text@ == thousands(n as nat),
    {
        format_en(n)
    }
}

impl SessionInfo {
    /// The title of the session recap.
    pub fn recap_title(&self) -> (title: String)
        ensures
            title@ == self.initial_user.username@ + " session recap"@,
    {
        let mut title = self.initial_user.username.clone();
        title.append(" session recap");
        title
    }

    /// The rank gain field of the session recap: "+" and the gain with
    /// thousands separators.
    pub fn rank_gain_text(&self) -> (text: String)
        requires
            self.has_rank_gain(),
        ensures
            text@ == "+"@ + thousands(self.spec_rank_gain() as nat),
    {
        let mut text = lit("+");
        text.append(format_en(self.get_rank_gain()).as_str());
        text
    }
}


/// The mods shown with a score never include one whose acronym contains
/// "CL", and all of them come from the score's mods.
pub proof fn law_shown_mods(acronyms: Seq<Seq<char>>)
    ensures
        forall|i: int| 0 <= i < kept_mods(acronyms).len() ==> !has_substring(#[trigger] kept_mods(acronyms)[i], "CL"@),
        forall|i: int| 0 <= i < kept_mods(acronyms).len() ==> acronyms.contains(#[trigger] kept_mods(acronyms)[i]),
        kept_mods(acronyms).len() <= acronyms.len(),
    decreases acronyms.len(),
{
    if acronyms.len() > 0 {
        let rest = acronyms.drop_last();
        law_shown_mods(rest);
        let k = kept_mods(rest);
        assert forall|i: int| 0 <= i < kept_mods(acronyms).len() implies !has_substring(#[trigger] kept_mods(acronyms)[i], "CL"@) && acronyms.contains(kept_mods(acronyms)[i]) by {
            if i < k.len() {
                assert(kept_mods(acronyms)[i] == k[i]);
                assert(rest.contains(k[i]));
                let j = choose|j: int| 0 <= j < rest.len() && rest[j] == k[i];
                assert(acronyms[j] == rest[j]);
            } else {
                assert(kept_mods(acronyms)[i] == acronyms.last());
                assert(acronyms[acronyms.len() - 1] == acronyms.last());
            }
        }
    }
}


/// The mods shown are exactly the score's mods, in order, without those
/// whose acronym contains "CL": every other mod is shown.
pub proof fn law_shown_mods_are_all_but_classic(acronyms: Seq<Seq<char>>)
    ensures
        kept_mods(acronyms) == acronyms.filter(|m: Seq<char>| !has_substring(m, "CL"@)),
        forall|i: int|
            0 <= i < acronyms.len() && !has_substring(acronyms[i], "CL"@) ==> kept_mods(
                acronyms,
            ).contains(#[trigger] acronyms[i]),
    decreases acronyms.len(),
{
    let pred = |m: Seq<char>| !has_substring(m, "CL"@);
    reveal_with_fuel(Seq::<Seq<char>>::filter, 1);
    if acronyms.len() > 0 {
        law_shown_mods_are_all_but_classic(acronyms.drop_last());
        let k = kept_mods(acronyms.drop_last());
        if pred(acronyms.last()) {
            assert(k + seq![acronyms.last()] =~= k.push(acronyms.last()));
        } else {
            assert(k + Seq::<Seq<char>>::empty() =~= k);
        }
    } else {
        assert(kept_mods(acronyms) =~= acronyms);
    }
    assert forall|i: int|
        0 <= i < acronyms.len() && !has_substring(acronyms[i], "CL"@) implies kept_mods(
            acronyms,
        ).contains(#[trigger] acronyms[i]) by {
        acronyms.lemma_filter_contains(pred, i);
    }
}

} // verus!
