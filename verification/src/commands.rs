//! The text of the bot's slash and prefix commands.
use vstd::prelude::*;
use vstd::string::*;
use vstd::utf8::encode_utf8;
use crate::text::push_char;

verus! {

/// The text of the `about` command.
pub open spec fn about_spec() -> Seq<char> {
    "I'm CuchaBot, a discord bot. \nAsk me anything using this format:\n"@
        + "hey cucha: tell me: [your_question]\n"@
        + "---(You do no need the format inside threads!)\n"@
        + "You can also try some commands using the '~' prefix\nSource: "@
        + "https://github.com/Cucharoth/cuchabot_local.git"@
}

/// The first lines of the `commands` command.
pub open spec fn commands_header() -> Seq<char> {
    "You can use commands with the '~' prefix\nYou can also ask CuchaBot to use them for you with:\nhey cucha, [command]\n\n"@
}

/// `d` followed by spaces up to `w` characters, as `{:w$}` pads a string.
pub open spec fn padded(d: Seq<char>, w: nat) -> Seq<char> {
    if d.len() >= w {
        d
    } else {
        d + Seq::new((w - d.len()) as nat, |i: int| ' ')
    }
}

/// The line of the `commands` command for one command: its name, and its
/// description padded to 100 characters less the name's length in bytes.
pub open spec fn command_line(name: Seq<char>, name_bytes: nat, description: Seq<char>) -> Seq<char> {
    "["@ + name + "]: "@ + padded(description, (100 - name_bytes) as nat) + " \n"@
}

/// The text of the `commands` command for the commands `list`.
pub open spec fn commands_spec(list: Seq<(String, String)>) -> Seq<char>
    decreases list.len(),
{
    if list.len() == 0 {
        commands_header()
    } else {
        commands_spec(list.drop_last()) + command_line(
            list.last().0@,
            encode_utf8(list.last().0@).len(),
            list.last().1@,
        )
    }
}

/// The text of the bot's commands.
pub struct CommandText;

impl CommandText {
    /// What the `about` command says.
    pub fn about() -> (text: String)
        ensures
            text@ == about_spec(),
    {
        let mut output = String::new();
        let source_link = "https://github.com/Cucharoth/cuchabot_local.git";
        output.append("I'm CuchaBot, a discord bot. \nAsk me anything using this format:\n");
        output.append("hey cucha: tell me: [your_question]\n");
        output.append("---(You do no need the format inside threads!)\n");
        output.append("You can also try some commands using the '~' prefix\nSource: ");
        output.append(source_link);
        assert(output@ =~= about_spec());
        output
    }

    /// What the `age` command says of a user named `name` whose account
    /// was created at `created_at`.
    pub fn age(name: &str, created_at: &str) -> (text: String)
        ensures
            text@ == name@ + "'s account was created at "@ + created_at@,
    {
        let mut response = String::from_str(name);
        response.append("'s account was created at ");
        response.append(created_at);
        response
    }

    /// What the `mythicweek` command says, given the affixes.
    pub fn mythicweek(affix: &str) -> (text: String)
        ensures
            text@ == "The current World of Warcraft Mythic+ affix are: "@ + affix@,
    {
        let mut response = String::from_str("The current World of Warcraft Mythic+ affix are: ");
        response.append(affix);
        response
    }

    /// What the `commands` command says about the commands `list`, as
    /// (name, description) pairs. A name longer than 100 bytes is refused,
    /// as the original's width computation would overflow there.
    pub fn commands(list: &Vec<(String, String)>) -> (text: String)
        requires
            forall|i: int| 0 <= i < list@.len() ==> encode_utf8((#[trigger] list@[i]).0@).len() <= 100,
        ensures
            text@ == commands_spec(list@),
    {
        let mut output = String::from_str(
            "You can use commands with the '~' prefix\nYou can also ask CuchaBot to use them for you with:\nhey cucha, [command]\n\n",
        );
        let mut i: usize = 0;
        while i < list.len()
            invariant
                i <= list@.len(),
                forall|j: int| 0 <= j < list@.len() ==> encode_utf8((#[trigger] list@[j]).0@).len() <= 100,
                output@ == commands_spec(list@.take(i as int)),
            decreases list@.len() - i,
        {
            assert(list@.take(i + 1).drop_last() =~= list@.take(i as int));
            let name = list[i].0.as_str();
            let description = list[i].1.as_str();
            let width = 100 - name.len();
            output.append("[");
            output.append(name);
            output.append("]: ");
            output.append(description);
            let shown = description.unicode_len();
            let mut k = shown;
            while k < width
                invariant
                    shown == description@.len(),
                    k >= shown,
                    k <= width || k == shown,
                    output@ == commands_spec(list@.take(i as int)) + "["@ + name@ + "]: "@
                        + description@ + Seq::new((k - shown) as nat, |j: int| ' '),
                decreases width - k,
            {
                push_char(&mut output, ' ');
                assert(Seq::new((k - shown) as nat, |j: int| ' ').push(' ') =~= Seq::new(
                    (k + 1 - shown) as nat,
                    |j: int| ' ',
                ));
                k = k + 1;
            }
            output.append(" \n");
            proof {
                assert(list@.take(i + 1).last() == list@[i as int]);
                assert(width == 100 - encode_utf8(list@[i as int].0@).len());
                let pad = Seq::new((k - shown) as nat, |j: int| ' ');
                if shown >= width {
                    assert(pad =~= Seq::<char>::empty());
                    assert(description@ + pad =~= padded(description@, width as nat));
                } else {
                    assert(k == width);
                    assert(description@ + pad =~= padded(description@, width as nat));
                }
            }
            assert(output@ =~= commands_spec(list@.take(i + 1)));
            i = i + 1;
        }
        assert(list@.take(i as int) =~= list@);
        output
    }
}

} // verus!
