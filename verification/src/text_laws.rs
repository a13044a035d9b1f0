//! What the library writes out, read back.
//!
//! Each law speaks of whatever text an operation answers: what a number reads as, what a summary and
//! the messages around it say, and which files a sample workspace is made of.

use crate::bounded_wait::{load_failed_message, timed_out_message};
use crate::fixtures;
use crate::fixtures::{
    sample_workspace, write_common_module, write_extension_config, write_extension_workspace,
    WorkspaceFile,
};
use crate::inner::Inner;
use crate::summary;
use crate::summary::{graph_state_summary, Owed};
use crate::text;
use crate::text::{decimal_text, flag_text, maybe_text, two_digits_text};
use crate::types::{GraphStatus, ReloadState};
use vstd::prelude::*;
use vstd::utf8::*;

verus! {

/// The number a row of decimal digits reads as.
pub open spec fn reads_as(digits: Seq<char>) -> int
    decreases digits.len(),
{
    if digits.len() == 0 {
        0
    } else {
        10 * reads_as(digits.drop_last()) + (digits.last() as int - '0' as int)
    }
}

/// Nothing but decimal digits.
pub open spec fn all_digits(digits: Seq<char>) -> bool {
    forall|i: int| 0 <= i < digits.len() ==> '0' <= #[trigger] digits[i] <= '9'
}

proof fn lemma_digit(d: u64)
    requires
        d < 10,
    ensures
        text::digit(d).len() == 1,
        '0' <= text::digit(d)[0] <= '9',
        text::digit(d)[0] as int - '0' as int == d,
{
    reveal_strlit("0");
    reveal_strlit("1");
    reveal_strlit("2");
    reveal_strlit("3");
    reveal_strlit("4");
    reveal_strlit("5");
    reveal_strlit("6");
    reveal_strlit("7");
    reveal_strlit("8");
    reveal_strlit("9");
}

proof fn lemma_decimal(n: nat)
    ensures
        all_digits(text::decimal(n)),
        reads_as(text::decimal(n)) == n,
        text::decimal(n).len() >= 1,
        n > 0 ==> text::decimal(n)[0] != '0',
        n < 10 <==> text::decimal(n).len() == 1,
        n < 100 <==> text::decimal(n).len() <= 2,
    decreases n,
{
    let written = text::decimal(n);
    if n < 10 {
        lemma_digit(n as u64);
        assert(written.drop_last() =~= Seq::<char>::empty());
        assert(reads_as(written.drop_last()) == 0);
    } else {
        lemma_decimal(n / 10);
        lemma_digit((n % 10) as u64);
        let before = text::decimal(n / 10);
        assert(written.drop_last() =~= before);
        assert(written.last() == text::digit((n % 10) as u64)[0]);
        assert(written[0] == before[0]);
        assert forall|i: int| 0 <= i < written.len() implies '0' <= #[trigger] written[i] <= '9' by {
            if i < before.len() {
                assert(written[i] == before[i]);
            }
        }
    }
}

/// A number is written in digits that read as the number, without a leading zero.
pub proof fn law_a_written_number_reads_as_the_number(n: u64, written: String)
    requires
        call_ensures(decimal_text, (n,), written),
    ensures
        all_digits(written@),
        reads_as(written@) == n,
        written@.len() >= 1,
        n > 0 ==> written@[0] != '0',
        n == 0 ==> written@ =~= seq!['0'],
{
    lemma_decimal(n as nat);
    reveal_strlit("0");
}

/// A number of two digits at least reads as the number too, and one below a hundred has two.
pub proof fn law_two_digits_read_as_the_number(n: u64, written: String)
    requires
        call_ensures(two_digits_text, (n,), written),
    ensures
        all_digits(written@),
        reads_as(written@) == n,
        n < 100 ==> written@.len() == 2,
        n >= 100 ==> written@.len() > 2 && written@[0] != '0',
{
    lemma_decimal(n as nat);
    reveal_strlit("0");
    if n < 10 {
        let one = text::decimal(n as nat);
        assert(written@ =~= "0"@ + one);
        assert(written@.drop_last() =~= "0"@);
        assert("0"@.drop_last() =~= Seq::<char>::empty());
        assert(reads_as("0"@.drop_last()) == 0);
        assert(reads_as("0"@) == 0);
        assert(written@.last() == one[0]);
        assert(one.drop_last() =~= Seq::<char>::empty());
        assert(reads_as(one.drop_last()) == 0);
    }
}

/// A flag says which it is, and a number that may be missing says so.
pub proof fn law_flags_and_missing_numbers_say_so(
    yes: &'static str,
    no: &'static str,
    n: u64,
    written: String,
    some: String,
    none: String,
)
    requires
        call_ensures(flag_text, (true,), yes),
        call_ensures(flag_text, (false,), no),
        call_ensures(decimal_text, (n,), written),
        call_ensures(maybe_text, (Some(n),), some),
        call_ensures(maybe_text, (None,), none),
    ensures
        yes@ == "true"@ && no@ == "false"@,
        some@ == "Some("@ + written@ + ")"@,
        none@ == "None"@,
{
}

/// What the summary says of a status.
pub open spec fn spells_status(status: GraphStatus, form: Seq<char>) -> bool {
    match status {
        GraphStatus::Disabled => form == "Disabled"@,
        GraphStatus::Idle => form == "Idle"@,
        GraphStatus::Loading => form == "Loading"@,
        GraphStatus::Ready { files } => exists|digits: Seq<char>| #[trigger]
            all_digits(digits) && reads_as(digits) == files && form == "Ready { files: "@ + digits
                + " }"@,
        GraphStatus::Failed(message) => form == "Failed("@ + summary::quoted(message@) + ")"@,
    }
}

/// What the summary says of a flag.
pub open spec fn spelled_flag(flag: bool) -> Seq<char> {
    if flag {
        "true"@
    } else {
        "false"@
    }
}

/// What the summary says of a fact that may be owed.
pub open spec fn spells_owed(fact: Option<u64>, form: Seq<char>) -> bool {
    match fact {
        Some(fact) => exists|digits: Seq<char>| #[trigger]
            all_digits(digits) && reads_as(digits) == fact && form == "Some("@ + digits + ")"@,
        None => form == "None"@,
    }
}

/// What the summary says of the publication on record.
pub open spec fn spells_publication(inner: Inner, form: Seq<char>) -> bool {
    match inner.published {
        Some(published) => exists|digits: Seq<char>| #[trigger]
            all_digits(digits) && reads_as(digits) == published.generation && form == "generation "@
                + digits + ", reload "@ + (match published.reload {
                ReloadState::Idle => "none"@,
                ReloadState::Running => "running"@,
                ReloadState::Failed(_) => "failed"@,
            }) + ", stale "@ + spelled_flag(published.stale) + ", force_stale "@ + spelled_flag(
                published.force_stale,
            ),
        None => form == "none"@,
    }
}

/// A summary says the status, the publication and everything owed, each as it is and in this order.
pub proof fn law_a_summary_says_what_was_observed(inner: &Inner, owed: &Owed, said: String)
    requires
        call_ensures(graph_state_summary, (inner, owed), said),
    ensures
        exists|status: Seq<char>, publication: Seq<char>, change: Seq<char>, forced: Seq<char>|
            {
                &&& #[trigger] spells_status(inner.status, status)
                &&& #[trigger] spells_publication(*inner, publication)
                &&& #[trigger] spells_owed(owed.change, change)
                &&& #[trigger] spells_owed(owed.forced, forced)
                &&& said@ == "status "@ + status + "; published: "@ + publication
                    + "; owed: change "@ + change + ", forced "@ + forced + ", failed "@
                    + spelled_flag(owed.failed) + ", marks "@ + spelled_flag(owed.marks)
                    + ", recovery "@ + spelled_flag(owed.recovery)
            },
{
    let status = summary::status_form(inner.status);
    let publication = summary::publication_form(inner.published);
    let change = text::maybe(owed.change);
    let forced = text::maybe(owed.forced);
    if let GraphStatus::Ready { files } = inner.status {
        lemma_decimal(files as nat);
        assert(all_digits(text::decimal(files as nat)));
    }
    if let Some(published) = inner.published {
        lemma_decimal(published.generation as nat);
        assert(all_digits(text::decimal(published.generation as nat)));
    }
    if let Some(fact) = owed.change {
        lemma_decimal(fact as nat);
        assert(all_digits(text::decimal(fact as nat)));
    }
    if let Some(fact) = owed.forced {
        lemma_decimal(fact as nat);
        assert(all_digits(text::decimal(fact as nat)));
    }
    assert(spells_status(inner.status, status));
    assert(spells_publication(*inner, publication));
    assert(spells_owed(owed.change, change));
    assert(spells_owed(owed.forced, forced));
}

/// A wait that ran out says how long it was, what it waited for and what it saw; one for a graph
/// that failed says why and what it saw.
pub proof fn law_a_message_says_what_it_waited_for(
    ceiling: &str,
    what: &str,
    seen: &str,
    failure: &str,
    timed_out: String,
    failed: String,
)
    requires
        call_ensures(timed_out_message, (ceiling, what, seen), timed_out),
        call_ensures(load_failed_message, (failure, seen), failed),
    ensures
        timed_out@ == "timed out after "@ + ceiling@ + " waiting for "@ + what@ + "; "@ + seen@,
        failed@ == "graph load failed: "@ + failure@ + "; "@ + seen@,
{
}

/// A list holds its files in order, and these are behind them.
pub open spec fn adds(before: Seq<WorkspaceFile>, after: Seq<WorkspaceFile>, count: int) -> bool {
    &&& after.len() == before.len() + count
    &&& forall|i: int|
        0 <= i < before.len() ==> (#[trigger] after[i]).path@ == before[i].path@ && after[i].text@
            == before[i].text@
}

proof fn lemma_adds(before: Seq<WorkspaceFile>, after: Seq<WorkspaceFile>, added: Seq<(Seq<char>, Seq<char>)>)
    requires
        fixtures::listing(after) == fixtures::listing(before) + added,
    ensures
        adds(before, after, added.len() as int),
        forall|i: int|
            0 <= i < added.len() ==> after[before.len() + i].path@ == (#[trigger] added[i]).0
                && after[before.len() + i].text@ == added[i].1,
{
    let of_after = fixtures::listing(after);
    let of_before = fixtures::listing(before);
    assert(of_after.len() == after.len() && of_before.len() == before.len());
    assert forall|i: int| 0 <= i < before.len() implies (#[trigger] after[i]).path@
        == before[i].path@ && after[i].text@ == before[i].text@ by {
        assert(of_after[i] == of_before[i]);
    }
    assert forall|i: int| 0 <= i < added.len() implies after[before.len() + i].path@ == (
    #[trigger] added[i]).0 && after[before.len() + i].text@ == added[i].1 by {
        assert(of_after[before.len() + i] == added[i]);
    }
}

/// The descriptor of a module: declared under its name, running on the server or on the client and
/// never on both, and numbered by the length of its name.
pub open spec fn declares_module(xml: Seq<char>, name: Seq<char>, server: bool) -> bool {
    exists|number: Seq<char>|
        #![trigger all_digits(number)]
        all_digits(number) && reads_as(number) == encode_utf8(name).len() && number.len() >= 2 && (
        number.len() > 2 ==> number[0] != '0') && xml
            == "<?xml version=\"1.0\" encoding=\"UTF-8\"?>\n<MetaDataObject xmlns=\"http://v8.1c.ru/8.3/MDClasses\" xmlns:v8=\"http://v8.1c.ru/8.1/data/core\">\n\t<CommonModule uuid=\"00000000-0000-0000-0000-0000000000"@
            + number + "\">\n\t\t<Properties>\n\t\t\t<Name>"@ + name
            + "</Name>\n\t\t\t<Global>false</Global>\n\t\t\t<ClientManagedApplication>"@
            + spelled_flag(!server) + "</ClientManagedApplication>\n\t\t\t<Server>"@ + spelled_flag(
            server,
        )
            + "</Server>\n\t\t\t<ExternalConnection>false</ExternalConnection>\n\t\t\t<ClientOrdinaryApplication>"@
            + spelled_flag(!server)
            + "</ClientOrdinaryApplication>\n\t\t\t<ServerCall>false</ServerCall>\n\t\t\t<Privileged>false</Privileged>\n\t\t\t<ReturnValuesReuse>DontUse</ReturnValuesReuse>\n\t\t</Properties>\n\t</CommonModule>\n</MetaDataObject>"@
}

proof fn lemma_declares(name: Seq<char>, server: bool)
    ensures
        declares_module(fixtures::common_module_descriptor(name, server), name, server),
{
    let n = encode_utf8(name).len();
    let number = text::two_digits(n);
    lemma_decimal(n);
    reveal_strlit("0");
    if n < 10 {
        let one = text::decimal(n);
        assert(number.drop_last() =~= "0"@);
        assert("0"@.drop_last() =~= Seq::<char>::empty());
        assert(reads_as("0"@.drop_last()) == 0);
        assert(reads_as("0"@) == 0);
        assert(number.last() == one[0]);
        assert(one.drop_last() =~= Seq::<char>::empty());
        assert(reads_as(one.drop_last()) == 0);
    }
    assert(all_digits(number));
}

/// A common module is two files behind those there were: its descriptor beside the folder of its
/// name, and its text in that folder.
pub proof fn law_a_common_module_is_two_files(
    files: &mut Vec<WorkspaceFile>,
    name: &str,
    server: bool,
    body: &str,
)
    requires
        call_ensures(write_common_module, (files, name, server, body), ()),
    ensures
        adds(old(files)@, final(files)@, 2),
        ({
            let n = old(files)@.len() as int;
            &&& final(files)@[n].path@ == "CommonModules/"@ + name@ + ".xml"@
            &&& declares_module(final(files)@[n].text@, name@, server)
            &&& final(files)@[n + 1].path@ == "CommonModules/"@ + name@ + "/Ext/Module.bsl"@
            &&& final(files)@[n + 1].text@ == body@
        }),
{
    let added = fixtures::common_module(name@, server, body@);
    lemma_adds(old(files)@, final(files)@, added);
    lemma_declares(name@, server);
    assert(added[0].0 == "CommonModules/"@ + name@ + ".xml"@);
    assert(added[1].0 == "CommonModules/"@ + name@ + "/Ext/Module.bsl"@);
}

/// The config names both extensions, and the second depends on the first exactly where it is said
/// to.
pub open spec fn names_the_extensions(config: Seq<char>, depends_on: bool) -> bool {
    config
        == "[source]\nroot = \".\"\nextensions = [\n  { name = \"a\", path = \"ext/a\" },\n  { name = \"b\", path = \"ext/b\""@
        + (if depends_on {
        ", dependsOn = [\"a\"]"@
    } else {
        ""@
    }) + " },\n]\n"@
}

/// A config is one file behind those there were.
pub proof fn law_a_config_is_one_file(files: &mut Vec<WorkspaceFile>, depends_on: bool)
    requires
        call_ensures(write_extension_config, (files, depends_on), ()),
    ensures
        adds(old(files)@, final(files)@, 1),
        final(files)@[old(files)@.len() as int].path@ == "bsl-analyzer.toml"@,
        names_the_extensions(final(files)@[old(files)@.len() as int].text@, depends_on),
{
    let added = seq![fixtures::extension_config(depends_on)];
    assert(fixtures::listing(old(files)@).push(fixtures::extension_config(depends_on))
        =~= fixtures::listing(old(files)@) + added);
    lemma_adds(old(files)@, final(files)@, added);
    assert(added[0] == fixtures::extension_config(depends_on));
}

/// The two modules of the sample: a client one that calls a server one.
pub open spec fn holds_the_sample(files: Seq<WorkspaceFile>, n: int) -> bool {
    &&& files[n].path@ == "CommonModules/"@ + "Клиент"@ + ".xml"@
    &&& declares_module(files[n].text@, "Клиент"@, false)
    &&& files[n + 1].path@ == "CommonModules/"@ + "Клиент"@ + "/Ext/Module.bsl"@
    &&& files[n + 1].text@
        == "&НаКлиенте\nПроцедура Главная() Экспорт\nСервер.Считать();\nКонецПроцедуры"@
    &&& files[n + 2].path@ == "CommonModules/"@ + "Сервер"@ + ".xml"@
    &&& declares_module(files[n + 2].text@, "Сервер"@, true)
    &&& files[n + 3].path@ == "CommonModules/"@ + "Сервер"@ + "/Ext/Module.bsl"@
    &&& files[n + 3].text@ == "&НаСервере\nФункция Считать() Экспорт КонецФункции"@
}

proof fn lemma_sample(before: Seq<WorkspaceFile>, after: Seq<WorkspaceFile>, added: Seq<(Seq<char>, Seq<char>)>)
    requires
        fixtures::listing(after) == fixtures::listing(before) + added,
        added.len() >= 4,
        added.take(4) == fixtures::sample(),
    ensures
        holds_the_sample(after, before.len() as int),
{
    lemma_adds(before, after, added);
    lemma_declares("Клиент"@, false);
    lemma_declares("Сервер"@, true);
    assert(added[0] == added.take(4)[0]);
    assert(added[1] == added.take(4)[1]);
    assert(added[2] == added.take(4)[2]);
    assert(added[3] == added.take(4)[3]);
}

/// The sample workspace is its two modules, behind whatever there was; the extension workspace is
/// the sample, the marker of the base and of both extensions, and the config.
pub proof fn law_a_workspace_is_its_files(
    files: &mut Vec<WorkspaceFile>,
    extended: &mut Vec<WorkspaceFile>,
    depends_on: bool,
)
    requires
        call_ensures(sample_workspace, (files,), ()),
        call_ensures(write_extension_workspace, (extended, depends_on), ()),
    ensures
        adds(old(files)@, final(files)@, 4),
        holds_the_sample(final(files)@, old(files)@.len() as int),
        adds(old(extended)@, final(extended)@, 8),
        ({
            let n = old(extended)@.len() as int;
            let after = final(extended)@;
            &&& holds_the_sample(after, n)
            &&& after[n + 4].path@ == "Configuration.xml"@ && after[n + 4].text@
                == "<Configuration/>"@
            &&& after[n + 5].path@ == "ext/a/Configuration.xml"@ && after[n + 5].text@
                == "<Configuration/>"@
            &&& after[n + 6].path@ == "ext/b/Configuration.xml"@ && after[n + 6].text@
                == "<Configuration/>"@
            &&& after[n + 7].path@ == "bsl-analyzer.toml"@
            &&& names_the_extensions(after[n + 7].text@, depends_on)
        }),
{
    let sample = fixtures::sample();
    assert(sample.take(4) =~= sample);
    lemma_sample(old(files)@, final(files)@, sample);
    lemma_adds(old(files)@, final(files)@, sample);
    let added = fixtures::extension_workspace(depends_on);
    assert(added.take(4) =~= sample);
    lemma_sample(old(extended)@, final(extended)@, added);
    lemma_adds(old(extended)@, final(extended)@, added);
    assert(added[4].0 == "Configuration.xml"@);
    assert(added[5].0 == "ext/a/Configuration.xml"@);
    assert(added[6].0 == "ext/b/Configuration.xml"@);
    assert(added[7] == fixtures::extension_config(depends_on));
}

} // verus!
