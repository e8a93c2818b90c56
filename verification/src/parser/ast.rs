use vstd::prelude::*;

verus! {

/// The commands of a text, in the order in which they were written.
#[derive(Debug, PartialEq)]
pub struct PostgresqlAbstractSyntaxTree {
    pub commands: Vec<Command>,
}

impl DeepView for PostgresqlAbstractSyntaxTree {
    type V = Seq<CommandView>;

    open spec fn deep_view(&self) -> Seq<CommandView> {
        self.commands.deep_view()
    }
}

impl View for PostgresqlAbstractSyntaxTree {
    type V = Seq<CommandView>;

    open spec fn view(&self) -> Seq<CommandView> {
        self.deep_view()
    }
}

impl PostgresqlAbstractSyntaxTree {
    /// The tree without commands.
    pub fn new() -> (tree: PostgresqlAbstractSyntaxTree)
        ensures
            tree@ == Seq::<CommandView>::empty(),
    {
        let tree = PostgresqlAbstractSyntaxTree { commands: Vec::new() };
        assert(tree@ =~= Seq::<CommandView>::empty());
        return tree;
    }

    /// The tree of the given commands.
    pub fn from_commands(commands: Vec<Command>) -> (tree: PostgresqlAbstractSyntaxTree)
        ensures
            tree@ == commands.deep_view(),
            tree.commands == commands,
    {
        return PostgresqlAbstractSyntaxTree { commands: commands };
    }

    /// The same tree with `command` added behind its last command.
    pub fn push_command(self, command: Command) -> (tree: PostgresqlAbstractSyntaxTree)
        ensures
            tree@ == self@.push(command@),
    {
        let mut tree = self;
        tree.commands.push(command);
        assert(tree@ =~= self@.push(command@));
        return tree;
    }
}

/// One statement of a text.
#[derive(Debug, PartialEq)]
pub enum Command {
    Empty(EmptyCommand),
    DataManipulation(DataManipulationCommand),
}

/// The mathematical value of a [`Command`].
pub enum CommandView {
    Empty,
    Select(SelectCommandView),
}

impl CommandView {
    /// A select command selects at least one expression, and each of its
    /// expressions is well formed.
    pub open spec fn well_formed(self) -> bool {
        match self {
            CommandView::Empty => true,
            CommandView::Select(select) => {
                &&& select.selected_expressions.len() >= 1
                &&& forall|i: int|
                    0 <= i < select.selected_expressions.len() ==> (
                    #[trigger] select.selected_expressions[i]).well_formed()
            },
        }
    }
}

/// Each of `commands` is well formed.
pub open spec fn commands_are_well_formed(commands: Seq<CommandView>) -> bool {
    forall|i: int| 0 <= i < commands.len() ==> (#[trigger] commands[i]).well_formed()
}

impl DeepView for Command {
    type V = CommandView;

    open spec fn deep_view(&self) -> CommandView {
        match self {
            Command::Empty(_) => CommandView::Empty,
            Command::DataManipulation(DataManipulationCommand::Select(select)) => {
                CommandView::Select(select.deep_view())
            },
        }
    }
}

impl View for Command {
    type V = CommandView;

    open spec fn view(&self) -> CommandView {
        self.deep_view()
    }
}

/// The command that is a `;` alone.
#[derive(Debug, PartialEq)]
pub struct EmptyCommand {}

/// The commands that read or change data.
#[derive(Debug, PartialEq)]
pub enum DataManipulationCommand {
    Select(SelectCommand),
}

/// A select command: what is selected, and from which table.
#[derive(Debug, PartialEq)]
pub struct SelectCommand {
    pub selected_expressions: Vec<SelectedExpression>,
    pub from_item: FromItem,
}

/// The mathematical value of a [`SelectCommand`].
pub struct SelectCommandView {
    pub selected_expressions: Seq<SelectedExpressionView>,
    pub from_item: FromItemView,
}

impl DeepView for SelectCommand {
    type V = SelectCommandView;

    open spec fn deep_view(&self) -> SelectCommandView {
        SelectCommandView {
            selected_expressions: self.selected_expressions.deep_view(),
            from_item: self.from_item.deep_view(),
        }
    }
}

impl View for SelectCommand {
    type V = SelectCommandView;

    open spec fn view(&self) -> SelectCommandView {
        self.deep_view()
    }
}

/// One entry of the list of a select command: all columns, or one column.
#[derive(Debug, PartialEq)]
pub enum SelectedExpression {
    AllColumns(AllColumnsSelectedExpression),
    Column(ColumnSelectedExpression),
}

/// The mathematical value of a [`SelectedExpression`].
pub enum SelectedExpressionView {
    AllColumns { schema_name: Option<IdentifierView>, table_name: Option<IdentifierView> },
    Column {
        schema_name: Option<IdentifierView>,
        table_name: Option<IdentifierView>,
        column_name: IdentifierView,
    },
}

impl SelectedExpressionView {
    /// A schema qualifies a table: it is named only where a table is named.
    pub open spec fn well_formed(self) -> bool {
        match self {
            SelectedExpressionView::AllColumns { schema_name, table_name } => schema_name is Some
                ==> table_name is Some,
            SelectedExpressionView::Column { schema_name, table_name, .. } => schema_name is Some
                ==> table_name is Some,
        }
    }
}

impl DeepView for SelectedExpression {
    type V = SelectedExpressionView;

    open spec fn deep_view(&self) -> SelectedExpressionView {
        match self {
            SelectedExpression::AllColumns(all) => SelectedExpressionView::AllColumns {
                schema_name: all.schema_name.deep_view(),
                table_name: all.table_name.deep_view(),
            },
            SelectedExpression::Column(column) => SelectedExpressionView::Column {
                schema_name: column.schema_name.deep_view(),
                table_name: column.table_name.deep_view(),
                column_name: column.column_name.deep_view(),
            },
        }
    }
}

impl View for SelectedExpression {
    type V = SelectedExpressionView;

    open spec fn view(&self) -> SelectedExpressionView {
        self.deep_view()
    }
}

/// All columns, of every table or of the table that is named.
#[derive(Debug, PartialEq)]
pub struct AllColumnsSelectedExpression {
    pub schema_name: Option<Identifier>,
    pub table_name: Option<Identifier>,
}

/// One column, which its table and the schema of its table may qualify.
#[derive(Debug, PartialEq)]
pub struct ColumnSelectedExpression {
    pub schema_name: Option<Identifier>,
    pub table_name: Option<Identifier>,
    pub column_name: Identifier,
}

/// The table that a command selects from, which its schema may qualify.
#[derive(Debug, PartialEq)]
pub struct FromItem {
    pub schema_name: Option<Identifier>,
    pub table_name: Identifier,
}

/// The mathematical value of a [`FromItem`].
pub struct FromItemView {
    pub schema_name: Option<IdentifierView>,
    pub table_name: IdentifierView,
}

impl DeepView for FromItem {
    type V = FromItemView;

    open spec fn deep_view(&self) -> FromItemView {
        FromItemView {
            schema_name: self.schema_name.deep_view(),
            table_name: self.table_name.deep_view(),
        }
    }
}

impl View for FromItem {
    type V = FromItemView;

    open spec fn view(&self) -> FromItemView {
        self.deep_view()
    }
}

/// A name. A quoted name holds what stood between its quotes, an unquoted one
/// the name as it was written.
#[derive(Debug, PartialEq)]
pub struct Identifier {
    pub quoted: bool,
    pub value: String,
}

/// The mathematical value of an [`Identifier`].
pub struct IdentifierView {
    pub quoted: bool,
    pub value: Seq<char>,
}

impl DeepView for Identifier {
    type V = IdentifierView;

    open spec fn deep_view(&self) -> IdentifierView {
        IdentifierView { quoted: self.quoted, value: self.value@ }
    }
}

impl View for Identifier {
    type V = IdentifierView;

    open spec fn view(&self) -> IdentifierView {
        self.deep_view()
    }
}

impl Clone for Identifier {
    fn clone(&self) -> (copy: Self)
        ensures
            copy@ == self@,
    {
        Identifier { quoted: self.quoted, value: self.value.clone() }
    }
}

} // verus!
