use vstd::prelude::*;

verus! {

/// One node kind of a syntax-tree family to generate source for: the
/// variant's name, the same name in lower case, the struct name, and the
/// fields as (name, type) pairs.
pub struct TreeType {
    pub base_class_name: String,
    pub lower_name: String,
    pub class_name: String,
    pub fields: Vec<(String, String)>,
}

/// The imports of the generated expression file.
pub open spec fn expr_imports_view(is: Seq<String>) -> bool {
    &&& is.len() == 4
    &&& is[0]@ == "error"@
    &&& is[1]@ == "token"@
    &&& is[2]@ == "object"@
    &&& is[3]@ == "rc"@
}

/// The imports of the generated statement file.
pub open spec fn stmt_imports_view(is: Seq<String>) -> bool {
    &&& is.len() == 4
    &&& is[0]@ == "error"@
    &&& is[1]@ == "token"@
    &&& is[2]@ == "expr"@
    &&& is[3]@ == "rc"@
}

/// The node kinds of the generated expression family: each entry's names and fields, in order.
pub open spec fn expr_table_view(ts: Seq<TreeType>) -> bool {
    &&& ts.len() == 8
    &&& ts[0].base_class_name@ == "Assign"@
    &&& ts[0].lower_name@ == "assign"@
    &&& ts[0].class_name@ == "AssignExpr"@
    &&& ts[0].fields@.len() == 2
    &&& ts[0].fields@[0].0@ == "name"@
    &&& ts[0].fields@[0].1@ == "Token"@
    &&& ts[0].fields@[1].0@ == "value"@
    &&& ts[0].fields@[1].1@ == "Rc<Expr>"@
    &&& ts[1].base_class_name@ == "Binary"@
    &&& ts[1].lower_name@ == "binary"@
    &&& ts[1].class_name@ == "BinaryExpr"@
    &&& ts[1].fields@.len() == 3
    &&& ts[1].fields@[0].0@ == "left"@
    &&& ts[1].fields@[0].1@ == "Rc<Expr>"@
    &&& ts[1].fields@[1].0@ == "operator"@
    &&& ts[1].fields@[1].1@ == "Token"@
    &&& ts[1].fields@[2].0@ == "right"@
    &&& ts[1].fields@[2].1@ == "Rc<Expr>"@
    &&& ts[2].base_class_name@ == "Call"@
    &&& ts[2].lower_name@ == "call"@
    &&& ts[2].class_name@ == "CallExpr"@
    &&& ts[2].fields@.len() == 3
    &&& ts[2].fields@[0].0@ == "callee"@
    &&& ts[2].fields@[0].1@ == "Rc<Expr>"@
    &&& ts[2].fields@[1].0@ == "paren"@
    &&& ts[2].fields@[1].1@ == "Token"@
    &&& ts[2].fields@[2].0@ == "arguments"@
    &&& ts[2].fields@[2].1@ == "Vec<Rc<Expr>>"@
    &&& ts[3].base_class_name@ == "Grouping"@
    &&& ts[3].lower_name@ == "grouping"@
    &&& ts[3].class_name@ == "GroupingExpr"@
    &&& ts[3].fields@.len() == 1
    &&& ts[3].fields@[0].0@ == "expression"@
    &&& ts[3].fields@[0].1@ == "Rc<Expr>"@
    &&& ts[4].base_class_name@ == "Literal"@
    &&& ts[4].lower_name@ == "literal"@
    &&& ts[4].class_name@ == "LiteralExpr"@
    &&& ts[4].fields@.len() == 1
    &&& ts[4].fields@[0].0@ == "value"@
    &&& ts[4].fields@[0].1@ == "Option<Object>"@
    &&& ts[5].base_class_name@ == "Logical"@
    &&& ts[5].lower_name@ == "logical"@
    &&& ts[5].class_name@ == "LogicalExpr"@
    &&& ts[5].fields@.len() == 3
    &&& ts[5].fields@[0].0@ == "left"@
    &&& ts[5].fields@[0].1@ == "Rc<Expr>"@
    &&& ts[5].fields@[1].0@ == "operator"@
    &&& ts[5].fields@[1].1@ == "Token"@
    &&& ts[5].fields@[2].0@ == "right"@
    &&& ts[5].fields@[2].1@ == "Rc<Expr>"@
    &&& ts[6].base_class_name@ == "Unary"@
    &&& ts[6].lower_name@ == "unary"@
    &&& ts[6].class_name@ == "UnaryExpr"@
    &&& ts[6].fields@.len() == 2
    &&& ts[6].fields@[0].0@ == "operator"@
    &&& ts[6].fields@[0].1@ == "Token"@
    &&& ts[6].fields@[1].0@ == "right"@
    &&& ts[6].fields@[1].1@ == "Rc<Expr>"@
    &&& ts[7].base_class_name@ == "Variable"@
    &&& ts[7].lower_name@ == "variable"@
    &&& ts[7].class_name@ == "VariableExpr"@
    &&& ts[7].fields@.len() == 1
    &&& ts[7].fields@[0].0@ == "name"@
    &&& ts[7].fields@[0].1@ == "Token"@
}

/// The node kinds of the generated statement family: each entry's names and fields, in order.
pub open spec fn stmt_table_view(ts: Seq<TreeType>) -> bool {
    &&& ts.len() == 9
    &&& ts[0].base_class_name@ == "Block"@
    &&& ts[0].lower_name@ == "block"@
    &&& ts[0].class_name@ == "BlockStmt"@
    &&& ts[0].fields@.len() == 1
    &&& ts[0].fields@[0].0@ == "statements"@
    &&& ts[0].fields@[0].1@ == "Rc<Vec<Rc<Stmt>>>"@
    &&& ts[1].base_class_name@ == "Break"@
    &&& ts[1].lower_name@ == "break"@
    &&& ts[1].class_name@ == "BreakStmt"@
    &&& ts[1].fields@.len() == 1
    &&& ts[1].fields@[0].0@ == "token"@
    &&& ts[1].fields@[0].1@ == "Token"@
    &&& ts[2].base_class_name@ == "Expression"@
    &&& ts[2].lower_name@ == "expression"@
    &&& ts[2].class_name@ == "ExpressionStmt"@
    &&& ts[2].fields@.len() == 1
    &&& ts[2].fields@[0].0@ == "expression"@
    &&& ts[2].fields@[0].1@ == "Rc<Expr>"@
    &&& ts[3].base_class_name@ == "Function"@
    &&& ts[3].lower_name@ == "function"@
    &&& ts[3].class_name@ == "FunctionStmt"@
    &&& ts[3].fields@.len() == 3
    &&& ts[3].fields@[0].0@ == "name"@
    &&& ts[3].fields@[0].1@ == "Token"@
    &&& ts[3].fields@[1].0@ == "params"@
    &&& ts[3].fields@[1].1@ == "Rc<Vec<Token>>"@
    &&& ts[3].fields@[2].0@ == "body"@
    &&& ts[3].fields@[2].1@ == "Rc<Vec<Rc<Stmt>>>"@
    &&& ts[4].base_class_name@ == "If"@
    &&& ts[4].lower_name@ == "if"@
    &&& ts[4].class_name@ == "IfStmt"@
    &&& ts[4].fields@.len() == 3
    &&& ts[4].fields@[0].0@ == "condition"@
    &&& ts[4].fields@[0].1@ == "Rc<Expr>"@
    &&& ts[4].fields@[1].0@ == "then_branch"@
    &&& ts[4].fields@[1].1@ == "Rc<Stmt>"@
    &&& ts[4].fields@[2].0@ == "else_branch"@
    &&& ts[4].fields@[2].1@ == "Option<Rc<Stmt>>"@
    &&& ts[5].base_class_name@ == "Print"@
    &&& ts[5].lower_name@ == "print"@
    &&& ts[5].class_name@ == "PrintStmt"@
    &&& ts[5].fields@.len() == 1
    &&& ts[5].fields@[0].0@ == "expression"@
    &&& ts[5].fields@[0].1@ == "Rc<Expr>"@
    &&& ts[6].base_class_name@ == "Return"@
    &&& ts[6].lower_name@ == "return"@
    &&& ts[6].class_name@ == "ReturnStmt"@
    &&& ts[6].fields@.len() == 2
    &&& ts[6].fields@[0].0@ == "keyword"@
    &&& ts[6].fields@[0].1@ == "Token"@
    &&& ts[6].fields@[1].0@ == "value"@
    &&& ts[6].fields@[1].1@ == "Option<Rc<Expr>>"@
    &&& ts[7].base_class_name@ == "Var"@
    &&& ts[7].lower_name@ == "var"@
    &&& ts[7].class_name@ == "VarStmt"@
    &&& ts[7].fields@.len() == 2
    &&& ts[7].fields@[0].0@ == "name"@
    &&& ts[7].fields@[0].1@ == "Token"@
    &&& ts[7].fields@[1].0@ == "initializer"@
    &&& ts[7].fields@[1].1@ == "Option<Rc<Expr>>"@
    &&& ts[8].base_class_name@ == "While"@
    &&& ts[8].lower_name@ == "while"@
    &&& ts[8].class_name@ == "WhileStmt"@
    &&& ts[8].fields@.len() == 2
    &&& ts[8].fields@[0].0@ == "condition"@
    &&& ts[8].fields@[0].1@ == "Rc<Expr>"@
    &&& ts[8].fields@[1].0@ == "body"@
    &&& ts[8].fields@[1].1@ == "Rc<Stmt>"@
}

/// One generated import line.
pub open spec fn import_line(i: Seq<char>) -> Seq<char> {
    if i == "rc"@ {
        "use std::rc::Rc;\n"@
    } else {
        "use crate::"@ + i + "::*;\n"@
    }
}

/// The generated import block.
pub open spec fn imports_text(is: Seq<String>) -> Seq<char>
    decreases is.len(),
{
    if is.len() == 0 {
        Seq::empty()
    } else {
        imports_text(is.drop_last()) + import_line(is.last()@)
    }
}

/// One arm of the generated enum.
pub open spec fn enum_arm(t: TreeType) -> Seq<char> {
    "    "@ + t.base_class_name@ + "(Rc<"@ + t.class_name@ + ">),\n"@
}

pub open spec fn enum_arms(ts: Seq<TreeType>) -> Seq<char>
    decreases ts.len(),
{
    if ts.len() == 0 {
        Seq::empty()
    } else {
        enum_arms(ts.drop_last()) + enum_arm(ts.last())
    }
}

/// One arm of the generated `accept` dispatch.
pub open spec fn accept_arm(base: Seq<char>, lower: Seq<char>, t: TreeType) -> Seq<char> {
    "            "@ + base + "::"@ + t.base_class_name@ + "(v) => "@ + lower
        + "_visitor.visit_"@ + t.lower_name@ + "_"@ + lower + "(wrapper, &v),\n"@
}

pub open spec fn accept_arms(base: Seq<char>, lower: Seq<char>, ts: Seq<TreeType>) -> Seq<char>
    decreases ts.len(),
{
    if ts.len() == 0 {
        Seq::empty()
    } else {
        accept_arms(base, lower, ts.drop_last()) + accept_arm(base, lower, ts.last())
    }
}

/// One generated struct field.
pub open spec fn field_line(f: (String, String)) -> Seq<char> {
    "    pub "@ + f.0@ + ": "@ + f.1@ + ",\n"@
}

pub open spec fn field_lines(fs: Seq<(String, String)>) -> Seq<char>
    decreases fs.len(),
{
    if fs.len() == 0 {
        Seq::empty()
    } else {
        field_lines(fs.drop_last()) + field_line(fs.last())
    }
}

/// One generated node struct.
pub open spec fn struct_text(t: TreeType) -> Seq<char> {
    "pub struct "@ + t.class_name@ + " {\n"@ + field_lines(t.fields@) + "}\n\n"@
}

pub open spec fn structs_text(ts: Seq<TreeType>) -> Seq<char>
    decreases ts.len(),
{
    if ts.len() == 0 {
        Seq::empty()
    } else {
        structs_text(ts.drop_last()) + struct_text(ts.last())
    }
}

/// One method of the generated visitor trait.
pub open spec fn visitor_line(base: Seq<char>, lower: Seq<char>, t: TreeType) -> Seq<char> {
    "    fn visit_"@ + t.lower_name@ + "_"@ + lower + "(&self, wrapper: Rc<"@ + base + ">, "@
        + lower + ": &"@ + t.class_name@ + ") -> Result<T, LoxResult>;\n"@
}

pub open spec fn visitor_lines(base: Seq<char>, lower: Seq<char>, ts: Seq<TreeType>) -> Seq<char>
    decreases ts.len(),
{
    if ts.len() == 0 {
        Seq::empty()
    } else {
        visitor_lines(base, lower, ts.drop_last()) + visitor_line(base, lower, ts.last())
    }
}

/// The whole generated source file for one syntax-tree family: imports,
/// the enum over its node kinds, the `accept` dispatch, one struct per
/// node kind, and the visitor trait.
pub open spec fn file_text(
    base: Seq<char>,
    lower: Seq<char>,
    is: Seq<String>,
    ts: Seq<TreeType>,
) -> Seq<char> {
    imports_text(is) + "\n"@ + "pub enum "@ + base + " {\n"@ + enum_arms(ts) + "}\n\n"@
        + "impl "@ + base + " {\n    pub fn accept<T>(&self, wrapper:Rc<"@ + base + ">, "@
        + lower + "_visitor:  &dyn "@ + base + "Visitor<T>) -> Result<T, LoxResult> {\n        match self {\n"@
        + accept_arms(base, lower, ts) + "        }\n    }\n}\n\n"@ + structs_text(ts)
        + "pub trait "@ + base + "Visitor<T> {\n"@ + visitor_lines(base, lower, ts) + "}\n\n"@
}

fn pair(a: &str, b: &str) -> (r: (String, String))
    ensures
        r.0@ == a@,
        r.1@ == b@,
{
    (String::from_str(a), String::from_str(b))
}

/// Produce the source text of the generated file for one syntax-tree
/// family, and the path it belongs at; the host writes it to disk.
pub fn define_ast(
    output_dir: &str,
    base_name: &str,
    base_lower: &str,
    imports: &Vec<String>,
    types: &Vec<TreeType>,
) -> (r: (String, String))
    ensures
        r.0@ == output_dir@ + "/"@ + base_lower@ + ".rs"@,
        r.1@ == file_text(base_name@, base_lower@, imports@, types@),
{
    proof {
        reveal_strlit("/");
        reveal_strlit(".rs");
        reveal_strlit("rc");
        reveal_strlit("use std::rc::Rc;\n");
        reveal_strlit("use crate::");
        reveal_strlit("::*;\n");
        reveal_strlit("\n");
        reveal_strlit("pub enum ");
        reveal_strlit(" {\n");
        reveal_strlit("    ");
        reveal_strlit("(Rc<");
        reveal_strlit(">),\n");
        reveal_strlit("}\n\n");
        reveal_strlit("impl ");
        reveal_strlit("            ");
        reveal_strlit("::");
        reveal_strlit("(v) => ");
        reveal_strlit("_visitor.visit_");
        reveal_strlit("_");
        reveal_strlit("(wrapper, &v),\n");
        reveal_strlit("        }\n    }\n}\n\n");
        reveal_strlit("pub struct ");
        reveal_strlit("    pub ");
        reveal_strlit(": ");
        reveal_strlit(",\n");
        reveal_strlit("pub trait ");
        reveal_strlit("Visitor<T> {\n");
    }
    let mut path = String::from_str(output_dir);
    path.append("/");
    path.append(base_lower);
    path.append(".rs");

    let mut s = String::new();
    let n_imports = imports.len();
    let mut i: usize = 0;
    while i < n_imports
        invariant
            i <= n_imports,
            n_imports == imports@.len(),
            s@ == imports_text(imports@.take(i as int)),
        decreases n_imports - i,
    {
        if imports[i] == String::from_str("rc") {
            s.append("use std::rc::Rc;\n");
        } else {
            s.append("use crate::");
            s.append(imports[i].as_str());
            s.append("::*;\n");
        }
        proof {
            assert(imports@.take(i + 1).drop_last() =~= imports@.take(i as int));
            assert(s@ =~= imports_text(imports@.take(i + 1)));
        }
        i = i + 1;
    }
    proof {
        assert(imports@.take(n_imports as int) =~= imports@);
    }
    s.append("\n");
    s.append("pub enum ");
    s.append(base_name);
    s.append(" {\n");
    let ghost before_arms = s@;
    let n_types = types.len();
    let mut j: usize = 0;
    while j < n_types
        invariant
            j <= n_types,
            n_types == types@.len(),
            s@ == before_arms + enum_arms(types@.take(j as int)),
        decreases n_types - j,
    {
        s.append("    ");
        s.append(types[j].base_class_name.as_str());
        s.append("(Rc<");
        s.append(types[j].class_name.as_str());
        s.append(">),\n");
        proof {
            assert(types@.take(j + 1).drop_last() =~= types@.take(j as int));
            assert(s@ =~= before_arms + enum_arms(types@.take(j + 1)));
        }
        j = j + 1;
    }
    proof {
        assert(types@.take(n_types as int) =~= types@);
    }
    s.append("}\n\n");
    s.append("impl ");
    s.append(base_name);
    s.append(" {\n    pub fn accept<T>(&self, wrapper:Rc<");
    s.append(base_name);
    s.append(">, ");
    s.append(base_lower);
    s.append("_visitor:  &dyn ");
    s.append(base_name);
    s.append("Visitor<T>) -> Result<T, LoxResult> {\n        match self {\n");
    let ghost before_accept = s@;
    let mut j2: usize = 0;
    while j2 < n_types
        invariant
            j2 <= n_types,
            n_types == types@.len(),
            s@ == before_accept + accept_arms(base_name@, base_lower@, types@.take(j2 as int)),
        decreases n_types - j2,
    {
        s.append("            ");
        s.append(base_name);
        s.append("::");
        s.append(types[j2].base_class_name.as_str());
        s.append("(v) => ");
        s.append(base_lower);
        s.append("_visitor.visit_");
        s.append(types[j2].lower_name.as_str());
        s.append("_");
        s.append(base_lower);
        s.append("(wrapper, &v),\n");
        proof {
            assert(types@.take(j2 + 1).drop_last() =~= types@.take(j2 as int));
            assert(s@ =~= before_accept + accept_arms(
                base_name@,
                base_lower@,
                types@.take(j2 + 1),
            ));
        }
        j2 = j2 + 1;
    }
    proof {
        assert(types@.take(n_types as int) =~= types@);
    }
    s.append("        }\n    }\n}\n\n");
    let ghost before_structs = s@;
    let mut j3: usize = 0;
    while j3 < n_types
        invariant
            j3 <= n_types,
            n_types == types@.len(),
            s@ == before_structs + structs_text(types@.take(j3 as int)),
        decreases n_types - j3,
    {
        s.append("pub struct ");
        s.append(types[j3].class_name.as_str());
        s.append(" {\n");
        let ghost before_fields = s@;
        let n_fields = types[j3].fields.len();
        let mut k: usize = 0;
        while k < n_fields
            invariant
                k <= n_fields,
                j3 < n_types,
                n_types == types@.len(),
                n_fields == types@[j3 as int].fields@.len(),
                s@ == before_fields + field_lines(types@[j3 as int].fields@.take(k as int)),
            decreases n_fields - k,
        {
            proof {
                reveal_strlit("    pub ");
                reveal_strlit(": ");
                reveal_strlit(",\n");
            }
            s.append("    pub ");
            s.append(types[j3].fields[k].0.as_str());
            s.append(": ");
            s.append(types[j3].fields[k].1.as_str());
            s.append(",\n");
            proof {
                assert(types@[j3 as int].fields@.take(k + 1).drop_last() =~= types@[
                    j3 as int
                ].fields@.take(k as int));
                assert(s@ =~= before_fields + field_lines(
                    types@[j3 as int].fields@.take(k + 1),
                ));
            }
            k = k + 1;
        }
        proof {
            assert(types@[j3 as int].fields@.take(n_fields as int) =~= types@[j3 as int].fields@);
        }
        s.append("}\n\n");
        proof {
            assert(types@.take(j3 + 1).drop_last() =~= types@.take(j3 as int));
            assert(s@ =~= before_structs + structs_text(types@.take(j3 + 1)));
        }
        j3 = j3 + 1;
    }
    proof {
        assert(types@.take(n_types as int) =~= types@);
    }
    s.append("pub trait ");
    s.append(base_name);
    s.append("Visitor<T> {\n");
    let ghost before_visitor = s@;
    let mut j4: usize = 0;
    while j4 < n_types
        invariant
            j4 <= n_types,
            n_types == types@.len(),
            s@ == before_visitor + visitor_lines(base_name@, base_lower@, types@.take(j4 as int)),
        decreases n_types - j4,
    {
        proof {
            reveal_strlit("    fn visit_");
            reveal_strlit("(&self, wrapper: Rc<");
            reveal_strlit(">, ");
            reveal_strlit(": &");
            reveal_strlit(") -> Result<T, LoxResult>;\n");
        }
        s.append("    fn visit_");
        s.append(types[j4].lower_name.as_str());
        s.append("_");
        s.append(base_lower);
        s.append("(&self, wrapper: Rc<");
        s.append(base_name);
        s.append(">, ");
        s.append(base_lower);
        s.append(": &");
        s.append(types[j4].class_name.as_str());
        s.append(") -> Result<T, LoxResult>;\n");
        proof {
            assert(types@.take(j4 + 1).drop_last() =~= types@.take(j4 as int));
            assert(s@ =~= before_visitor + visitor_lines(
                base_name@,
                base_lower@,
                types@.take(j4 + 1),
            ));
        }
        j4 = j4 + 1;
    }
    proof {
        assert(types@.take(n_types as int) =~= types@);
    }
    s.append("}\n\n");
    proof {
        assert(s@ =~= file_text(base_name@, base_lower@, imports@, types@));
        assert(path@ =~= output_dir@ + "/"@ + base_lower@ + ".rs"@);
    }
    (path, s)
}

fn expr_types() -> (r: Vec<TreeType>)
    ensures
        expr_table_view(r@),
{
    let mut ts: Vec<TreeType> = Vec::new();
    let mut f: Vec<(String, String)> = Vec::new();
    f.push(pair("name", "Token"));
    f.push(pair("value", "Rc<Expr>"));
    ts.push(
        TreeType {
            base_class_name: String::from_str("Assign"),
            lower_name: String::from_str("assign"),
            class_name: String::from_str("AssignExpr"),
            fields: f,
        },
    );
    let mut f: Vec<(String, String)> = Vec::new();
    f.push(pair("left", "Rc<Expr>"));
    f.push(pair("operator", "Token"));
    f.push(pair("right", "Rc<Expr>"));
    ts.push(
        TreeType {
            base_class_name: String::from_str("Binary"),
            lower_name: String::from_str("binary"),
            class_name: String::from_str("BinaryExpr"),
            fields: f,
        },
    );
    let mut f: Vec<(String, String)> = Vec::new();
    f.push(pair("callee", "Rc<Expr>"));
    f.push(pair("paren", "Token"));
    f.push(pair("arguments", "Vec<Rc<Expr>>"));
    ts.push(
        TreeType {
            base_class_name: String::from_str("Call"),
            lower_name: String::from_str("call"),
            class_name: String::from_str("CallExpr"),
            fields: f,
        },
    );
    let mut f: Vec<(String, String)> = Vec::new();
    f.push(pair("expression", "Rc<Expr>"));
    ts.push(
        TreeType {
            base_class_name: String::from_str("Grouping"),
            lower_name: String::from_str("grouping"),
            class_name: String::from_str("GroupingExpr"),
            fields: f,
        },
    );
    let mut f: Vec<(String, String)> = Vec::new();
    f.push(pair("value", "Option<Object>"));
    ts.push(
        TreeType {
            base_class_name: String::from_str("Literal"),
            lower_name: String::from_str("literal"),
            class_name: String::from_str("LiteralExpr"),
            fields: f,
        },
    );
    let mut f: Vec<(String, String)> = Vec::new();
    f.push(pair("left", "Rc<Expr>"));
    f.push(pair("operator", "Token"));
    f.push(pair("right", "Rc<Expr>"));
    ts.push(
        TreeType {
            base_class_name: String::from_str("Logical"),
            lower_name: String::from_str("logical"),
            class_name: String::from_str("LogicalExpr"),
            fields: f,
        },
    );
    let mut f: Vec<(String, String)> = Vec::new();
    f.push(pair("operator", "Token"));
    f.push(pair("right", "Rc<Expr>"));
    ts.push(
        TreeType {
            base_class_name: String::from_str("Unary"),
            lower_name: String::from_str("unary"),
            class_name: String::from_str("UnaryExpr"),
            fields: f,
        },
    );
    let mut f: Vec<(String, String)> = Vec::new();
    f.push(pair("name", "Token"));
    ts.push(
        TreeType {
            base_class_name: String::from_str("Variable"),
            lower_name: String::from_str("variable"),
            class_name: String::from_str("VariableExpr"),
            fields: f,
        },
    );
    ts
}

fn stmt_types() -> (r: Vec<TreeType>)
    ensures
        stmt_table_view(r@),
{
    let mut ts: Vec<TreeType> = Vec::new();
    let mut f: Vec<(String, String)> = Vec::new();
    f.push(pair("statements", "Rc<Vec<Rc<Stmt>>>"));
    ts.push(
        TreeType {
            base_class_name: String::from_str("Block"),
            lower_name: String::from_str("block"),
            class_name: String::from_str("BlockStmt"),
            fields: f,
        },
    );
    let mut f: Vec<(String, String)> = Vec::new();
    f.push(pair("token", "Token"));
    ts.push(
        TreeType {
            base_class_name: String::from_str("Break"),
            lower_name: String::from_str("break"),
            class_name: String::from_str("BreakStmt"),
            fields: f,
        },
    );
    let mut f: Vec<(String, String)> = Vec::new();
    f.push(pair("expression", "Rc<Expr>"));
    ts.push(
        TreeType {
            base_class_name: String::from_str("Expression"),
            lower_name: String::from_str("expression"),
            class_name: String::from_str("ExpressionStmt"),
            fields: f,
        },
    );
    let mut f: Vec<(String, String)> = Vec::new();
    f.push(pair("name", "Token"));
    f.push(pair("params", "Rc<Vec<Token>>"));
    f.push(pair("body", "Rc<Vec<Rc<Stmt>>>"));
    ts.push(
        TreeType {
            base_class_name: String::from_str("Function"),
            lower_name: String::from_str("function"),
            class_name: String::from_str("FunctionStmt"),
            fields: f,
        },
    );
    let mut f: Vec<(String, String)> = Vec::new();
    f.push(pair("condition", "Rc<Expr>"));
    f.push(pair("then_branch", "Rc<Stmt>"));
    f.push(pair("else_branch", "Option<Rc<Stmt>>"));
    ts.push(
        TreeType {
            base_class_name: String::from_str("If"),
            lower_name: String::from_str("if"),
            class_name: String::from_str("IfStmt"),
            fields: f,
        },
    );
    let mut f: Vec<(String, String)> = Vec::new();
    f.push(pair("expression", "Rc<Expr>"));
    ts.push(
        TreeType {
            base_class_name: String::from_str("Print"),
            lower_name: String::from_str("print"),
            class_name: String::from_str("PrintStmt"),
            fields: f,
        },
    );
    let mut f: Vec<(String, String)> = Vec::new();
    f.push(pair("keyword", "Token"));
    f.push(pair("value", "Option<Rc<Expr>>"));
    ts.push(
        TreeType {
            base_class_name: String::from_str("Return"),
            lower_name: String::from_str("return"),
            class_name: String::from_str("ReturnStmt"),
            fields: f,
        },
    );
    let mut f: Vec<(String, String)> = Vec::new();
    f.push(pair("name", "Token"));
    f.push(pair("initializer", "Option<Rc<Expr>>"));
    ts.push(
        TreeType {
            base_class_name: String::from_str("Var"),
            lower_name: String::from_str("var"),
            class_name: String::from_str("VarStmt"),
            fields: f,
        },
    );
    let mut f: Vec<(String, String)> = Vec::new();
    f.push(pair("condition", "Rc<Expr>"));
    f.push(pair("body", "Rc<Stmt>"));
    ts.push(
        TreeType {
            base_class_name: String::from_str("While"),
            lower_name: String::from_str("while"),
            class_name: String::from_str("WhileStmt"),
            fields: f,
        },
    );
    ts
}

/// The source files of the two syntax-tree families, expressions and
/// statements, as (path, contents) pairs ready for the host to write
/// under the given directory.
pub fn gerenate_ast(output_dir: &str) -> (r: Vec<(String, String)>)
    ensures
        r@.len() == 2,
        r@[0].0@ == output_dir@ + "/"@ + "expr"@ + ".rs"@,
        r@[1].0@ == output_dir@ + "/"@ + "stmt"@ + ".rs"@,
        exists|is1: Seq<String>, ts1: Seq<TreeType>|
            #[trigger] expr_imports_view(is1) && #[trigger] expr_table_view(ts1) && r@[0].1@
                == file_text("Expr"@, "expr"@, is1, ts1),
        exists|is2: Seq<String>, ts2: Seq<TreeType>|
            #[trigger] stmt_imports_view(is2) && #[trigger] stmt_table_view(ts2) && r@[1].1@
                == file_text("Stmt"@, "stmt"@, is2, ts2),
{
    proof {
        reveal_strlit("expr");
        reveal_strlit("stmt");
    }
    let mut imports: Vec<String> = Vec::new();
    imports.push(String::from_str("error"));
    imports.push(String::from_str("token"));
    imports.push(String::from_str("object"));
    imports.push(String::from_str("rc"));
    let expr_ts = expr_types();
    proof {
        assert(expr_imports_view(imports@));
    }
    let expr_file = define_ast(output_dir, "Expr", "expr", &imports, &expr_ts);

    let mut imports2: Vec<String> = Vec::new();
    imports2.push(String::from_str("error"));
    imports2.push(String::from_str("token"));
    imports2.push(String::from_str("expr"));
    imports2.push(String::from_str("rc"));
    let stmt_ts = stmt_types();
    proof {
        assert(stmt_imports_view(imports2@));
    }
    let stmt_file = define_ast(output_dir, "Stmt", "stmt", &imports2, &stmt_ts);

    let mut out: Vec<(String, String)> = Vec::new();
    out.push(expr_file);
    out.push(stmt_file);
    out
}

} // verus!
