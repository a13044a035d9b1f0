//! Sample workspaces, as the files that make them up.

use crate::text;
use crate::text::{flag_text, two_digits_text};
use vstd::prelude::*;
use vstd::utf8::*;

verus! {

/// A file of a workspace: its path below the root, with slashes, and its text.
#[derive(Debug, PartialEq, Eq)]
pub struct WorkspaceFile {
    pub path: String,
    pub text: String,
}

/// The paths and texts of a list of files.
pub open spec fn listing(files: Seq<WorkspaceFile>) -> Seq<(Seq<char>, Seq<char>)> {
    files.map_values(|file: WorkspaceFile| (file.path@, file.text@))
}

fn add_file(files: &mut Vec<WorkspaceFile>, path: String, text: String)
    ensures
        listing(final(files)@) == listing(old(files)@).push((path@, text@)),
{
    let ghost before = listing(files@);
    files.push(WorkspaceFile { path, text });
    assert(listing(files@) =~= before.push((path@, text@)));
}

/// The descriptor of a common module, so that the module is declared in the configuration and its
/// client or server execution context is known.
pub open spec fn common_module_descriptor(name: Seq<char>, server: bool) -> Seq<char> {
    "<?xml version=\"1.0\" encoding=\"UTF-8\"?>\n<MetaDataObject xmlns=\"http://v8.1c.ru/8.3/MDClasses\" xmlns:v8=\"http://v8.1c.ru/8.1/data/core\">\n\t<CommonModule uuid=\"00000000-0000-0000-0000-0000000000"@
        + text::two_digits(encode_utf8(name).len())
        + "\">\n\t\t<Properties>\n\t\t\t<Name>"@ + name
        + "</Name>\n\t\t\t<Global>false</Global>\n\t\t\t<ClientManagedApplication>"@ + text::flag(
        !server,
    ) + "</ClientManagedApplication>\n\t\t\t<Server>"@ + text::flag(server)
        + "</Server>\n\t\t\t<ExternalConnection>false</ExternalConnection>\n\t\t\t<ClientOrdinaryApplication>"@
        + text::flag(!server)
        + "</ClientOrdinaryApplication>\n\t\t\t<ServerCall>false</ServerCall>\n\t\t\t<Privileged>false</Privileged>\n\t\t\t<ReturnValuesReuse>DontUse</ReturnValuesReuse>\n\t\t</Properties>\n\t</CommonModule>\n</MetaDataObject>"@
}

/// The two files of a common module.
pub open spec fn common_module(name: Seq<char>, server: bool, body: Seq<char>) -> Seq<
    (Seq<char>, Seq<char>),
> {
    seq![
        ("CommonModules/"@ + name + ".xml"@, common_module_descriptor(name, server)),
        ("CommonModules/"@ + name + "/Ext/Module.bsl"@, body),
    ]
}

fn descriptor_text(name: &str, server: bool) -> (xml: String)
    ensures
        xml@ == common_module_descriptor(name@, server),
{
    let client = !server;
    let mut xml = String::from_str(
        "<?xml version=\"1.0\" encoding=\"UTF-8\"?>\n<MetaDataObject xmlns=\"http://v8.1c.ru/8.3/MDClasses\" xmlns:v8=\"http://v8.1c.ru/8.1/data/core\">\n\t<CommonModule uuid=\"00000000-0000-0000-0000-0000000000",
    );
    let id = name.as_bytes().len();
    xml.append(two_digits_text(id as u64).as_str());
    xml.append("\">\n\t\t<Properties>\n\t\t\t<Name>");
    xml.append(name);
    xml.append("</Name>\n\t\t\t<Global>false</Global>\n\t\t\t<ClientManagedApplication>");
    xml.append(flag_text(client));
    xml.append("</ClientManagedApplication>\n\t\t\t<Server>");
    xml.append(flag_text(server));
    xml.append(
        "</Server>\n\t\t\t<ExternalConnection>false</ExternalConnection>\n\t\t\t<ClientOrdinaryApplication>",
    );
    xml.append(flag_text(client));
    xml.append(
        "</ClientOrdinaryApplication>\n\t\t\t<ServerCall>false</ServerCall>\n\t\t\t<Privileged>false</Privileged>\n\t\t\t<ReturnValuesReuse>DontUse</ReturnValuesReuse>\n\t\t</Properties>\n\t</CommonModule>\n</MetaDataObject>",
    );
    xml
}

/// Add a common module: its descriptor, and its text.
pub fn write_common_module(files: &mut Vec<WorkspaceFile>, name: &str, server: bool, body: &str)
    ensures
        listing(final(files)@) == listing(old(files)@) + common_module(name@, server, body@),
{
    let ghost before = listing(files@);
    let mut descriptor = String::from_str("CommonModules/");
    descriptor.append(name);
    descriptor.append(".xml");
    add_file(files, descriptor, descriptor_text(name, server));
    let mut module = String::from_str("CommonModules/");
    module.append(name);
    module.append("/Ext/Module.bsl");
    add_file(files, module, String::from_str(body));
    assert(listing(files@) =~= before + common_module(name@, server, body@));
}

/// The sample workspace: a client module that calls a server one.
pub open spec fn sample() -> Seq<(Seq<char>, Seq<char>)> {
    common_module(
        "Клиент"@,
        false,
        "&НаКлиенте\nПроцедура Главная() Экспорт\nСервер.Считать();\nКонецПроцедуры"@,
    ) + common_module("Сервер"@, true, "&НаСервере\nФункция Считать() Экспорт КонецФункции"@)
}

/// Add the sample workspace.
pub fn sample_workspace(files: &mut Vec<WorkspaceFile>)
    ensures
        listing(final(files)@) == listing(old(files)@) + sample(),
{
    let ghost before = listing(files@);
    write_common_module(
        files,
        "Клиент",
        false,
        "&НаКлиенте\nПроцедура Главная() Экспорт\nСервер.Считать();\nКонецПроцедуры",
    );
    write_common_module(
        files,
        "Сервер",
        true,
        "&НаСервере\nФункция Считать() Экспорт КонецФункции",
    );
    assert(listing(files@) =~= before + sample());
}

/// The analyzer config of the extension workspace. One dependency edge is all that moves in it.
pub open spec fn extension_config(depends_on: bool) -> (Seq<char>, Seq<char>) {
    (
        "bsl-analyzer.toml"@,
        "[source]\nroot = \".\"\nextensions = [\n  { name = \"a\", path = \"ext/a\" },\n  { name = \"b\", path = \"ext/b\""@
            + (if depends_on {
            ", dependsOn = [\"a\"]"@
        } else {
            ""@
        }) + " },\n]\n"@,
    )
}

/// Add only the analyzer config: a drift under test must never come from a scanned file's stat
/// moving.
pub fn write_extension_config(files: &mut Vec<WorkspaceFile>, depends_on: bool)
    ensures
        listing(final(files)@) == listing(old(files)@).push(extension_config(depends_on)),
{
    let mut config = String::from_str(
        "[source]\nroot = \".\"\nextensions = [\n  { name = \"a\", path = \"ext/a\" },\n  { name = \"b\", path = \"ext/b\"",
    );
    let deps = if depends_on {
        ", dependsOn = [\"a\"]"
    } else {
        ""
    };
    config.append(deps);
    config.append(" },\n]\n");
    add_file(files, String::from_str("bsl-analyzer.toml"), config);
}

/// The extension workspace: the sample, with two declared extensions. The base marker keeps the
/// configured root resolving to the root itself.
pub open spec fn extension_workspace(depends_on: bool) -> Seq<(Seq<char>, Seq<char>)> {
    sample() + seq![
        ("Configuration.xml"@, "<Configuration/>"@),
        ("ext/a/Configuration.xml"@, "<Configuration/>"@),
        ("ext/b/Configuration.xml"@, "<Configuration/>"@),
        extension_config(depends_on),
    ]
}

/// Add the extension workspace.
pub fn write_extension_workspace(files: &mut Vec<WorkspaceFile>, depends_on: bool)
    ensures
        listing(final(files)@) == listing(old(files)@) + extension_workspace(depends_on),
{
    let ghost before = listing(files@);
    sample_workspace(files);
    add_file(files, String::from_str("Configuration.xml"), String::from_str("<Configuration/>"));
    add_file(
        files,
        String::from_str("ext/a/Configuration.xml"),
        String::from_str("<Configuration/>"),
    );
    add_file(
        files,
        String::from_str("ext/b/Configuration.xml"),
        String::from_str("<Configuration/>"),
    );
    write_extension_config(files, depends_on);
    assert(listing(files@) =~= before + extension_workspace(depends_on));
}

/// A dependency edge moves the config and no file a scan lists: the two workspaces differ in their
/// last file alone.
pub proof fn law_a_dependency_edge_moves_only_the_config()
    ensures
        extension_workspace(true).drop_last() == extension_workspace(false).drop_last(),
        extension_workspace(true).last() == extension_config(true),
        extension_workspace(false).last() == extension_config(false),
        extension_config(true).0 == extension_config(false).0,
        extension_config(true).1 != extension_config(false).1,
{
    assert(extension_workspace(true).drop_last() =~= extension_workspace(false).drop_last());
    reveal_strlit(", dependsOn = [\"a\"]");
    reveal_strlit("");
    assert(extension_config(true).1.len() != extension_config(false).1.len());
}

} // verus!
