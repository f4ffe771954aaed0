//! The adapter for the Alacritty terminal emulator: turning the `colors`
//! table of a theme file into the option list of one configuration message.
//! What the option list is, is said in [`crate::theme_listener::walk`].

use crate::config_tree::{
    lookup, nodes_of, parse_document, parsed_document, table_entries, table_get, table_items,
    value_node, Node,
};
use crate::text::{
    chosen, decimal_string, join, join_all, join_path, lines_of, path_join, value_or,
};
use crate::theme::Theme;
use crate::theme_listener::walk::{
    dotted, finish, flatten, indexed, lemma_visit_entries_weight, option_line, popped,
    stack_weight, visit_entries, visit_items, Walk,
};
use crate::theme_listener::{home_directory, AdapterError};
use vstd::prelude::*;
use vstd::string::*;

verus! {

/// The entries of each queued table, bottom of the stack first.
pub open spec fn tables_of(stack: Seq<&toml::Table>) -> Seq<Seq<(Seq<char>, Node)>> {
    stack.map_values(|table: &toml::Table| table_entries(*table))
}

/// The walk that the three working vectors stand for.
pub open spec fn walk_of(keys: Seq<String>, stack: Seq<&toml::Table>, options: Seq<Seq<char>>) -> Walk {
    Walk { prefixes: lines_of(keys), tables: tables_of(stack), options }
}

fn dotted_key(prefix: &str, key: &str) -> (text: String)
    ensures
        text@ == dotted(prefix@, key@),
{
    let mut text = String::from_str(prefix);
    text.append(".");
    text.append(key);
    proof {
        reveal_strlit(".");
        assert("."@ =~= seq!['.']);
    }
    text
}

fn indexed_key(prefix: &str, key: &str, index: usize) -> (text: String)
    ensures
        text@ == indexed(prefix@, key@, index as nat),
{
    let mut text = dotted_key(prefix, key);
    let number = decimal_string(index);
    text.append(".[");
    text.append(number.as_str());
    text.append("]");
    proof {
        reveal_strlit(".[");
        reveal_strlit("]");
        assert(".["@ =~= seq!['.', '[']);
        assert("]"@ =~= seq![']']);
    }
    text
}

fn option_text(prefix: &str, key: &str, value: &str) -> (text: String)
    ensures
        text@ == option_line(prefix@, key@, value@),
{
    let name = dotted_key(prefix, key);
    let mut text = String::from_str("\"");
    text.append(name.as_str());
    text.append("=\\\"");
    text.append(value);
    text.append("\\\"\"");
    proof {
        reveal_strlit("\"");
        reveal_strlit("=\\\"");
        reveal_strlit("\\\"\"");
        assert("\""@ =~= seq!['"']);
        assert("=\\\""@ =~= seq!['=', '\\', '"']);
        assert("\\\"\""@ =~= seq!['\\', '"', '"']);
    }
    text
}

/// Visits the elements of one array stored under `prefix.key`.
fn visit_array<'a>(
    keys: &mut Vec<String>,
    stack: &mut Vec<&'a toml::Table>,
    prefix: &str,
    key: &str,
    items: &'a Vec<toml::Value>,
    Ghost(options): Ghost<Seq<Seq<char>>>,
)
    requires
        old(keys).len() >= old(stack).len(),
    ensures
        final(keys).len() >= final(stack).len(),
        walk_of(final(keys)@, final(stack)@, options) == visit_items(
            walk_of(old(keys)@, old(stack)@, options),
            prefix@,
            key@,
            nodes_of(items@),
            items.len() as nat,
        ),
{
    let ghost start = walk_of(keys@, stack@, options);
    let mut i: usize = 0;
    while i < items.len()
        invariant
            i <= items.len(),
            keys.len() >= stack.len(),
            walk_of(keys@, stack@, options) == visit_items(
                start,
                prefix@,
                key@,
                nodes_of(items@),
                i as nat,
            ),
        decreases items.len() - i,
    {
        let ghost old_keys = keys@;
        let ghost old_stack = stack@;
        let name = indexed_key(prefix, key, i);
        keys.push(name);
        assert(lines_of(keys@) =~= lines_of(old_keys).push(indexed(prefix@, key@, i as nat)));
        assert(nodes_of(items@)[i as int] == value_node(items@[i as int]));
        if let Some(table) = items[i].as_table() {
            stack.push(table);
            assert(tables_of(stack@) =~= tables_of(old_stack).push(table_entries(*table)));
        }
        i = i + 1;
    }
}

/// Visits the entries of one table met under `prefix`.
fn visit_table<'a>(
    keys: &mut Vec<String>,
    stack: &mut Vec<&'a toml::Table>,
    result: &mut Vec<String>,
    prefix: &str,
    table: &'a toml::Table,
)
    requires
        old(keys).len() >= old(stack).len(),
    ensures
        final(keys).len() >= final(stack).len(),
        walk_of(final(keys)@, final(stack)@, lines_of(final(result)@)) == visit_entries(
            walk_of(old(keys)@, old(stack)@, lines_of(old(result)@)),
            prefix@,
            table_entries(*table),
            table_entries(*table).len(),
        ),
{
    let ghost start = walk_of(keys@, stack@, lines_of(result@));
    let ghost entries = table_entries(*table);
    let items = table_items(table);
    let mut i: usize = 0;
    while i < items.len()
        invariant
            i <= items.len(),
            items@.len() == entries.len(),
            forall|j: int|
                0 <= j < items@.len() ==> (#[trigger] items@[j]).0@ == entries[j].0 && value_node(
                    *items@[j].1,
                ) == entries[j].1,
            keys.len() >= stack.len(),
            walk_of(keys@, stack@, lines_of(result@)) == visit_entries(
                start,
                prefix@,
                entries,
                i as nat,
            ),
        decreases items.len() - i,
    {
        let ghost old_keys = keys@;
        let ghost old_stack = stack@;
        let ghost old_result = result@;
        let key: &String = items[i].0;
        let value: &toml::Value = items[i].1;
        assert(key@ == entries[i as int].0 && value_node(*value) == entries[i as int].1);
        if let Some(inner) = value.as_table() {
            let name = dotted_key(prefix, key.as_str());
            keys.push(name);
            stack.push(inner);
            assert(lines_of(keys@) =~= lines_of(old_keys).push(dotted(prefix@, key@)));
            assert(tables_of(stack@) =~= tables_of(old_stack).push(table_entries(*inner)));
        } else if let Some(text) = value.as_str() {
            let line = option_text(prefix, key.as_str(), text);
            result.push(line);
            assert(lines_of(result@) =~= lines_of(old_result).push(
                option_line(prefix@, key@, text@),
            ));
        } else if let Some(list) = value.as_array() {
            visit_array(keys, stack, prefix, key.as_str(), list, Ghost(lines_of(result@)));
        }
        i = i + 1;
    }
}

/// Turns a `colors` table into option lines, one for every string in it.
///
/// The table is walked with two stacks, one of tables and one of key
/// prefixes, which are taken off together.  A table is queued with its
/// prefix; an array queues a prefix for every element but a table only for
/// the elements that are tables.  The result is pinned by [`flatten`].
pub fn flatten_table(config: &toml::Table) -> (options: Vec<String>)
    ensures
        lines_of(options@) == flatten(table_entries(*config)),
{
    let mut result: Vec<String> = Vec::new();
    let mut keys: Vec<String> = Vec::new();
    let mut stack: Vec<&toml::Table> = Vec::new();
    keys.push(String::from_str("colors"));
    stack.push(config);
    proof {
        reveal_strlit("colors");
        assert("colors"@ =~= seq!['c', 'o', 'l', 'o', 'r', 's']);
        assert(lines_of(keys@) =~= seq![seq!['c', 'o', 'l', 'o', 'r', 's']]);
        assert(tables_of(stack@) =~= seq![table_entries(*config)]);
        assert(lines_of(result@) =~= Seq::<Seq<char>>::empty());
    }
    while stack.len() > 0
        invariant
            keys.len() >= stack.len(),
            finish(walk_of(keys@, stack@, lines_of(result@))) == flatten(table_entries(*config)),
        decreases stack_weight(tables_of(stack@)),
    {
        let ghost before = walk_of(keys@, stack@, lines_of(result@));
        let table = stack.pop().unwrap();
        let prefix = keys.pop().unwrap();
        proof {
            assert(lines_of(keys@) =~= before.prefixes.drop_last());
            assert(tables_of(stack@) =~= before.tables.drop_last());
            assert(before.prefixes.last() == prefix@);
            assert(before.tables.last() == table_entries(*table));
            lemma_visit_entries_weight(
                popped(before),
                prefix@,
                table_entries(*table),
                table_entries(*table).len(),
            );
        }
        visit_table(&mut keys, &mut stack, &mut result, prefix.as_str(), table);
    }
    result
}

/// Why a theme file gives no configuration message.
#[derive(Debug)]
pub enum ConfigError {
    /// The text is not a TOML document.
    Syntax(toml::de::Error),
    /// The document has no `colors` entry, or the entry is not a table.
    MissingColors,
}

/// The `colors` table of a document, where it has one.
pub open spec fn colors_of(document: Seq<(Seq<char>, Node)>) -> Option<Seq<(Seq<char>, Node)>> {
    match lookup(document, "colors"@) {
        Some(Node::Table(entries)) => Some(entries),
        _ => None,
    }
}

/// The configuration message that carries the given options: one JSON
/// object, the options separated by commas and nothing reset.
pub open spec fn message_of(options: Seq<Seq<char>>) -> Seq<char> {
    "{\"Config\":{\"options\": ["@ + join(options, ","@) + "],\"reset\": false}}"@
}

/// Builds the configuration message for a parsed theme document.
pub fn document_message(document: &toml::Table) -> (message: Result<String, ConfigError>)
    ensures
        match colors_of(table_entries(*document)) {
            Some(colors) => message matches Ok(text) && text@ == message_of(flatten(colors)),
            None => message matches Err(ConfigError::MissingColors),
        },
{
    let colors = match table_get(document, "colors") {
        Some(value) => value.as_table(),
        None => None,
    };
    match colors {
        Some(table) => {
            let options = flatten_table(table);
            let list = join_all(&options, ",");
            let mut text = String::from_str("{\"Config\":{\"options\": [");
            text.append(list.as_str());
            text.append("],\"reset\": false}}");
            Ok(text)
        },
        None => Err(ConfigError::MissingColors),
    }
}

/// Builds the configuration message for the text of a theme file.
pub fn config_message(config_text: &str) -> (message: Result<String, ConfigError>)
    ensures
        match parsed_document(config_text@) {
            Some(document) => match colors_of(document) {
                Some(colors) => message matches Ok(text) && text@ == message_of(flatten(colors)),
                None => message matches Err(ConfigError::MissingColors),
            },
            None => message matches Err(ConfigError::Syntax(_)),
        },
{
    match parse_document(config_text) {
        Ok(document) => document_message(&document),
        Err(error) => Err(ConfigError::Syntax(error)),
    }
}

/// The adapter that restyles a running Alacritty: where its control socket
/// is, and which theme file goes with which theme.
#[derive(Clone, Debug)]
pub struct Alacritty {
    socket_path: String,
    light_theme_config_path: String,
    dark_theme_config_path: String,
}

impl Alacritty {
    /// The path of the control socket.
    pub closed spec fn socket(&self) -> Seq<char> {
        self.socket_path@
    }

    /// The path of the theme file used for the light theme.
    pub closed spec fn light_config(&self) -> Seq<char> {
        self.light_theme_config_path@
    }

    /// The path of the theme file used for the dark theme.
    pub closed spec fn dark_config(&self) -> Seq<char> {
        self.dark_theme_config_path@
    }

    /// The path of the theme file used for a theme.
    pub open spec fn config_for(&self, theme: Theme) -> Seq<char> {
        match theme {
            Theme::LIGHT => self.light_config(),
            Theme::DARK => self.dark_config(),
        }
    }

    /// Where the theme file of the given name lies under a home directory.
    pub open spec fn theme_file(home: Seq<char>, name: Seq<char>) -> Seq<char> {
        join_path(join_path(home, ".config/alacritty/themes/"@), name + ".toml"@)
    }

    /// Sets the adapter up from what the environment says: the control
    /// socket, the home directory and the names of the two themes.  A name
    /// that is absent falls back to a placeholder that names no file; a name
    /// that is present and empty is refused.  Nothing on disk is consulted:
    /// see [`Alacritty::confirm`].
    pub fn new(
        socket: Option<String>,
        home: Option<String>,
        light_theme: Option<String>,
        dark_theme: Option<String>,
    ) -> (adapter: Result<Alacritty, AdapterError>)
        ensures
            match adapter {
                Ok(found) => {
                    &&& chosen(light_theme, "Light theme not set"@).len() > 0
                    &&& chosen(dark_theme, "Dark theme not set"@).len() > 0
                    &&& found.socket() == chosen(socket, Seq::empty())
                    &&& found.light_config() == Self::theme_file(
                        chosen(home, Seq::empty()),
                        chosen(light_theme, "Light theme not set"@),
                    )
                    &&& found.dark_config() == Self::theme_file(
                        chosen(home, Seq::empty()),
                        chosen(dark_theme, "Dark theme not set"@),
                    )
                },
                Err(error) => {
                    &&& error == AdapterError::ThemeNotSet
                    &&& (chosen(light_theme, "Light theme not set"@).len() == 0 || chosen(
                        dark_theme,
                        "Dark theme not set"@,
                    ).len() == 0)
                },
            },
    {
        let socket_path = value_or(socket, "");
        proof {
            reveal_strlit("");
            assert(""@ =~= Seq::<char>::empty());
        }
        let home_path = home_directory(home);
        let directory = path_join(home_path.as_str(), ".config/alacritty/themes/");
        let light_name = value_or(light_theme, "Light theme not set");
        let dark_name = value_or(dark_theme, "Dark theme not set");
        if light_name.as_str().is_empty() || dark_name.as_str().is_empty() {
            return Err(AdapterError::ThemeNotSet);
        }
        let mut light_file = light_name;
        light_file.append(".toml");
        let mut dark_file = dark_name;
        dark_file.append(".toml");
        Ok(
            Alacritty {
                socket_path,
                light_theme_config_path: path_join(directory.as_str(), light_file.as_str()),
                dark_theme_config_path: path_join(directory.as_str(), dark_file.as_str()),
            },
        )
    }

    /// Keeps the adapter only if both of its theme files were found.
    pub fn confirm(self, light_found: bool, dark_found: bool) -> (adapter: Result<
        Alacritty,
        AdapterError,
    >)
        ensures
            light_found && dark_found ==> adapter == Ok::<Alacritty, AdapterError>(self),
            !(light_found && dark_found) ==> adapter == Err::<Alacritty, AdapterError>(
                AdapterError::ConfigNotFound,
            ),
    {
        if light_found && dark_found {
            Ok(self)
        } else {
            Err(AdapterError::ConfigNotFound)
        }
    }

    /// The path of the control socket.
    pub fn socket_path(&self) -> (path: &str)
        ensures
            path@ == self.socket(),
    {
        self.socket_path.as_str()
    }

    /// The theme file to apply for a theme.
    pub fn config_path(&self, theme: Theme) -> (path: &str)
        ensures
            path@ == self.config_for(theme),
    {
        match theme {
            Theme::DARK => self.dark_theme_config_path.as_str(),
            Theme::LIGHT => self.light_theme_config_path.as_str(),
        }
    }
}

} // verus!
